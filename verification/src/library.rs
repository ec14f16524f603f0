use vstd::prelude::*;
use vstd::utf8::*;
use vstd::string::StringSliceAdditionalSpecFns;
use crate::order::{bytes_lt, compare_bytes, ByteOrder, lemma_bytes_lt_irreflexive,
    lemma_bytes_lt_transitive};
use crate::text::{lowercase, to_lowercase, contains_bytes, contains_str};
use crate::status::{SongStatus, LrcFile, status_from_scan, spec_status_from_scan,
    status_after_unlock, spec_status_after_unlock, spec_scanned_status, needs_search,
    spec_needs_search};

verus! {

/// One song of the library: the path of its music file and its status.
#[derive(Debug)]
pub struct LibraryEntry {
    pub path: String,
    pub status: SongStatus,
}

/// The bytes by which a path is ordered: its UTF-8 encoding.
pub open spec fn path_key(p: Seq<char>) -> Seq<u8> {
    encode_utf8(p)
}

/// Whether the paths come in strictly increasing byte order, the order in
/// which `String`s sort.
pub open spec fn ascending(paths: Seq<Seq<char>>) -> bool {
    forall|i: int, j: int|
        0 <= i < j < paths.len() ==> bytes_lt(path_key(#[trigger] paths[i]), path_key(
            #[trigger] paths[j],
        ))
}

/// The paths of a list of entries.
pub open spec fn paths_of(s: Seq<LibraryEntry>) -> Seq<Seq<char>> {
    s.map_values(|e: LibraryEntry| e.path@)
}

/// The views of a list of strings.
pub open spec fn views_of(s: Seq<String>) -> Seq<Seq<char>> {
    s.map_values(|x: String| x@)
}

/// The map from path to status that a list of entries describes.
pub open spec fn map_of(s: Seq<LibraryEntry>) -> Map<Seq<char>, SongStatus>
    decreases s.len(),
{
    if s.len() == 0 {
        Map::empty()
    } else {
        map_of(s.drop_last()).insert(s.last().path@, s.last().status)
    }
}

/// The paths of a library map that have the given status.
pub open spec fn paths_with(m: Map<Seq<char>, SongStatus>, st: SongStatus) -> Set<Seq<char>> {
    m.dom().filter(|k: Seq<char>| m[k] == st)
}

/// The number of songs of a library map that have the given status.
pub open spec fn status_count(m: Map<Seq<char>, SongStatus>, st: SongStatus) -> nat {
    paths_with(m, st).len()
}

/// The number of entries of a list that have the given status.
pub open spec fn count_in(s: Seq<LibraryEntry>, st: SongStatus) -> nat
    decreases s.len(),
{
    if s.len() == 0 {
        0
    } else {
        count_in(s.drop_last(), st) + if s.last().status == st {
            1nat
        } else {
            0nat
        }
    }
}

/// The library map once a scan found the `.lrc` file `lrc` for `path`.
pub open spec fn scanned(m: Map<Seq<char>, SongStatus>, path: Seq<char>, lrc: LrcFile) -> Map<
    Seq<char>,
    SongStatus,
> {
    if m.dom().contains(path) {
        m.insert(path, spec_scanned_status(m[path], spec_status_from_scan(lrc)))
    } else {
        m.insert(path, spec_status_from_scan(lrc))
    }
}

/// Whether a search that found `found` for `path` changes the library map:
/// the library holds the song and `found` comes after its status.
pub open spec fn improves(m: Map<Seq<char>, SongStatus>, path: Seq<char>, found: SongStatus) -> bool {
    m.dom().contains(path) && found.rank() > m[path].rank()
}

/// The library map once a search found `found` for `path`.
pub open spec fn upgraded(m: Map<Seq<char>, SongStatus>, path: Seq<char>, found: SongStatus) -> Map<
    Seq<char>,
    SongStatus,
> {
    if improves(m, path, found) {
        m.insert(path, found)
    } else {
        m
    }
}

/// The library map once the lock of `path` is toggled, an unlocked song
/// taking its status from its `.lrc` file `lrc`.
pub open spec fn toggled(m: Map<Seq<char>, SongStatus>, path: Seq<char>, lrc: LrcFile) -> Map<
    Seq<char>,
    SongStatus,
> {
    if !m.dom().contains(path) {
        m
    } else if m[path] == SongStatus::Locked {
        m.insert(path, spec_status_after_unlock(lrc))
    } else {
        m.insert(path, SongStatus::Locked)
    }
}

/// Whether a status passes the filter of the library view: any status
/// passes no filter.
pub open spec fn matches_filter(st: SongStatus, filter: Option<SongStatus>) -> bool {
    match filter {
        None => true,
        Some(t) => st == t,
    }
}

/// Whether a path passes the search of the library view, `q` being the
/// lowercase search text: an empty search passes everything, else the
/// lowercase path must contain it.
pub open spec fn matches_query(path: Seq<char>, q: Seq<char>) -> bool {
    q.len() == 0 || contains_bytes(encode_utf8(lowercase(path)), encode_utf8(q))
}

/// Paths in ascending order are distinct.
pub proof fn lemma_ascending_distinct(paths: Seq<Seq<char>>, i: int, j: int)
    requires
        ascending(paths),
        0 <= i < paths.len(),
        0 <= j < paths.len(),
        i != j,
    ensures
        paths[i] != paths[j],
{
    lemma_bytes_lt_irreflexive(path_key(paths[i]));
}

/// What the map of an ascending list of entries holds: exactly the paths of
/// the entries, each with the status of its entry.
pub proof fn lemma_map_of(s: Seq<LibraryEntry>)
    requires
        ascending(paths_of(s)),
    ensures
        map_of(s).dom().finite(),
        map_of(s).dom().len() == s.len(),
        forall|k: Seq<char>|
            map_of(s).dom().contains(k) <==> exists|i: int| 0 <= i < s.len() && s[i].path@ == k,
        forall|i: int| 0 <= i < s.len() ==> #[trigger] map_of(s)[s[i].path@] == s[i].status,
    decreases s.len(),
{
    if s.len() > 0 {
        let d = s.drop_last();
        assert(paths_of(d) =~= paths_of(s).drop_last());
        lemma_map_of(d);
        let k = s.last().path@;
        assert forall|i: int| 0 <= i < d.len() implies d[i].path@ != k by {
            assert(paths_of(s)[i] == d[i].path@);
            assert(paths_of(s)[s.len() - 1] == k);
            lemma_ascending_distinct(paths_of(s), i, s.len() - 1);
        }
        assert(!map_of(d).dom().contains(k));
        assert forall|kk: Seq<char>|
            (exists|i: int| 0 <= i < s.len() && s[i].path@ == kk) implies map_of(s).dom().contains(kk) by {
            {
                let i = choose|i: int| 0 <= i < s.len() && s[i].path@ == kk;
                if i < d.len() {
                    assert(d[i] == s[i]);
                }
            }
        }
        assert forall|kk: Seq<char>|
            map_of(s).dom().contains(kk) implies exists|i: int| 0 <= i < s.len() && s[i].path@ == kk by {
            if kk != k {
                let i = choose|i: int| 0 <= i < d.len() && d[i].path@ == kk;
                assert(s[i] == d[i]);
            }
            if kk == k {
                assert(s[s.len() - 1].path@ == kk);
            }
        }
        assert forall|i: int| 0 <= i < s.len() implies #[trigger] map_of(s)[s[i].path@]
            == s[i].status by {
            if i < d.len() {
                assert(d[i] == s[i]);
                assert(map_of(d)[d[i].path@] == d[i].status);
            }
        }
    }
}

/// The number of songs of the map of an ascending list that have a status is
/// the number of entries of the list that have it.
pub proof fn lemma_count_map_of(s: Seq<LibraryEntry>, st: SongStatus)
    requires
        ascending(paths_of(s)),
    ensures
        status_count(map_of(s), st) == count_in(s, st),
    decreases s.len(),
{
    if s.len() == 0 {
        assert(paths_with(map_of(s), st) =~= Set::empty());
    } else {
        let d = s.drop_last();
        assert(paths_of(d) =~= paths_of(s).drop_last());
        lemma_count_map_of(d, st);
        lemma_map_of(d);
        lemma_map_of(s);
        let k = s.last().path@;
        assert forall|i: int| 0 <= i < d.len() implies d[i].path@ != k by {
            assert(paths_of(s)[i] == d[i].path@);
            assert(paths_of(s)[s.len() - 1] == k);
            lemma_ascending_distinct(paths_of(s), i, s.len() - 1);
        }
        let m = map_of(d);
        assert(!m.dom().contains(k));
        lemma_count_insert_new(m, k, s.last().status, st);
        assert(map_of(s) == m.insert(k, s.last().status));
    }
}

/// Adding a new path to a finite library map adds one to the count of its
/// status and leaves the other counts alone.
pub proof fn lemma_count_insert_new(
    m: Map<Seq<char>, SongStatus>,
    k: Seq<char>,
    v: SongStatus,
    st: SongStatus,
)
    requires
        m.dom().finite(),
        !m.dom().contains(k),
    ensures
        status_count(m.insert(k, v), st) == status_count(m, st) + if v == st {
            1nat
        } else {
            0nat
        },
{
    let m2 = m.insert(k, v);
    let f1 = paths_with(m, st);
    let f2 = paths_with(m2, st);
    m.dom().lemma_len_filter(|x: Seq<char>| m[x] == st);
    assert(f1.finite());
    assert(!f1.contains(k));
    if v == st {
        assert(f2 =~= f1.insert(k));
    } else {
        assert(f2 =~= f1);
    }
}

/// Changing the status of a path that a finite library map holds moves one
/// song from the count of the old status to that of the new one.
pub proof fn lemma_count_update(
    m: Map<Seq<char>, SongStatus>,
    k: Seq<char>,
    v: SongStatus,
    st: SongStatus,
)
    requires
        m.dom().finite(),
        m.dom().contains(k),
    ensures
        status_count(m.insert(k, v), st) + (if m[k] == st {
            1nat
        } else {
            0nat
        }) == status_count(m, st) + if v == st {
            1nat
        } else {
            0nat
        },
{
    let r = m.remove(k);
    lemma_count_insert_new(r, k, v, st);
    lemma_count_insert_new(r, k, m[k], st);
    assert(r.insert(k, v) =~= m.insert(k, v));
    assert(r.insert(k, m[k]) =~= m);
}

} // verus!

verus! {

/// A path that comes after all entries before `pos` and before all entries
/// from `pos` on is not in the map of an ascending list.
pub proof fn lemma_not_found(s: Seq<LibraryEntry>, path: Seq<char>, pos: int)
    requires
        ascending(paths_of(s)),
        0 <= pos <= s.len(),
        forall|j: int| 0 <= j < pos ==> bytes_lt(path_key(s[j].path@), path_key(path)),
        forall|j: int| pos <= j < s.len() ==> bytes_lt(path_key(path), path_key(s[j].path@)),
    ensures
        !map_of(s).dom().contains(path),
{
    lemma_map_of(s);
    if map_of(s).dom().contains(path) {
        let j = choose|j: int| 0 <= j < s.len() && s[j].path@ == path;
        lemma_bytes_lt_irreflexive(path_key(path));
    }
}

/// Giving an entry of an ascending list a new status keeps the list
/// ascending and changes the status of its path in the map.
pub proof fn lemma_map_update(s: Seq<LibraryEntry>, i: int, e: LibraryEntry)
    requires
        ascending(paths_of(s)),
        0 <= i < s.len(),
        e.path@ == s[i].path@,
    ensures
        ascending(paths_of(s.update(i, e))),
        map_of(s.update(i, e)) == map_of(s).insert(e.path@, e.status),
{
    let s2 = s.update(i, e);
    let p = e.path@;
    let status = e.status;
    assert(paths_of(s2) =~= paths_of(s));
    lemma_map_of(s);
    lemma_map_of(s2);
    assert forall|k: Seq<char>| #![auto]
        map_of(s2).dom().contains(k) <==> map_of(s).insert(p, status).dom().contains(k) by {
        if map_of(s2).dom().contains(k) {
            let j = choose|j: int| 0 <= j < s2.len() && s2[j].path@ == k;
            if j != i {
                assert(s[j] == s2[j]);
            }
        }
        if map_of(s).dom().contains(k) {
            let j = choose|j: int| 0 <= j < s.len() && s[j].path@ == k;
            assert(s2[j].path@ == s[j].path@);
        }
    }
    assert forall|k: Seq<char>| #![auto] map_of(s2).dom().contains(k) implies map_of(s2)[k]
        == map_of(s).insert(p, status)[k] by {
        let j = choose|j: int| 0 <= j < s2.len() && s2[j].path@ == k;
        if j != i {
            assert(s[j] == s2[j]);
            lemma_ascending_distinct(paths_of(s), j, i);
            assert(paths_of(s)[j] == k);
        }
    }
    assert(map_of(s2) =~= map_of(s).insert(p, status));
}

/// Removing an entry of an ascending list keeps the list ascending and
/// removes its path from the map.
pub proof fn lemma_map_remove(s: Seq<LibraryEntry>, i: int)
    requires
        ascending(paths_of(s)),
        0 <= i < s.len(),
    ensures
        ascending(paths_of(s.remove(i))),
        map_of(s.remove(i)) == map_of(s).remove(s[i].path@),
{
    let s2 = s.remove(i);
    let p = s[i].path@;
    assert forall|a: int, b: int| 0 <= a < b < paths_of(s2).len() implies bytes_lt(
        path_key(#[trigger] paths_of(s2)[a]),
        path_key(#[trigger] paths_of(s2)[b]),
    ) by {
        let a1 = if a < i { a } else { a + 1 };
        let b1 = if b < i { b } else { b + 1 };
        assert(paths_of(s2)[a] == paths_of(s)[a1]);
        assert(paths_of(s2)[b] == paths_of(s)[b1]);
    }
    lemma_map_of(s);
    lemma_map_of(s2);
    assert forall|k: Seq<char>| #![auto]
        map_of(s2).dom().contains(k) <==> map_of(s).remove(p).dom().contains(k) by {
        if map_of(s2).dom().contains(k) {
            let j = choose|j: int| 0 <= j < s2.len() && s2[j].path@ == k;
            let j1 = if j < i { j } else { j + 1 };
            assert(s2[j] == s[j1]);
            lemma_ascending_distinct(paths_of(s), j1, i);
            assert(paths_of(s)[j1] == k && paths_of(s)[i] == p);
        }
        if map_of(s).remove(p).dom().contains(k) {
            let j = choose|j: int| 0 <= j < s.len() && s[j].path@ == k;
            if j < i {
                assert(s2[j] == s[j]);
            } else {
                assert(j != i);
                assert(s2[j - 1] == s[j]);
            }
        }
    }
    assert forall|k: Seq<char>| #![auto] map_of(s2).dom().contains(k) implies map_of(s2)[k]
        == map_of(s).remove(p)[k] by {
        let j = choose|j: int| 0 <= j < s2.len() && s2[j].path@ == k;
        let j1 = if j < i { j } else { j + 1 };
        assert(s2[j] == s[j1]);
    }
    assert(map_of(s2) =~= map_of(s).remove(p));
}

/// The songs of the music library: each path of a music file, once, with its
/// status. The entries are kept in increasing order of path.
pub struct Library {
    entries: Vec<LibraryEntry>,
}

/// What toggling the lock of a song did.
#[derive(Clone, Copy, Debug, PartialEq, Eq, Structural)]
pub enum LockChange {
    /// The library does not hold the song; nothing changed.
    Absent,
    /// The song was locked.
    Locked,
    /// The song was unlocked.
    Unlocked,
}

impl View for Library {
    type V = Map<Seq<char>, SongStatus>;

    closed spec fn view(&self) -> Map<Seq<char>, SongStatus> {
        map_of(self.entries@)
    }
}

impl Library {
    #[verifier::type_invariant]
    closed spec fn inv(self) -> bool {
        ascending(paths_of(self.entries@))
    }

    /// An empty library.
    pub fn new() -> (r: Self)
        ensures
            r@ == Map::<Seq<char>, SongStatus>::empty(),
    {
        let r = Library { entries: Vec::new() };
        assert(r@ =~= Map::<Seq<char>, SongStatus>::empty());
        r
    }

    /// The number of songs in the library.
    pub fn len(&self) -> (n: usize)
        ensures
            self@.dom().finite(),
            n == self@.dom().len(),
    {
        proof {
            use_type_invariant(self);
            lemma_map_of(self.entries@);
        }
        self.entries.len()
    }

    /// Where `path` stands or would stand among the entries, and whether it
    /// is there.
    fn locate(&self, path: &str) -> (r: (usize, bool))
        ensures
            r.0 <= self.entries@.len(),
            r.1 ==> r.0 < self.entries@.len() && self.entries@[r.0 as int].path@ == path@,
            !r.1 ==> forall|j: int|
                0 <= j < r.0 ==> bytes_lt(path_key(self.entries@[j].path@), path_key(path@)),
            !r.1 ==> forall|j: int|
                r.0 <= j < self.entries@.len() ==> bytes_lt(
                    path_key(path@),
                    path_key(self.entries@[j].path@),
                ),
    {
        proof {
            use_type_invariant(self);
        }
        let target = path.as_bytes();
        let n = self.entries.len();
        let mut i: usize = 0;
        while i < n
            invariant
                i <= n == self.entries@.len(),
                target@ == path_key(path@),
                ascending(paths_of(self.entries@)),
                forall|j: int|
                    0 <= j < i ==> bytes_lt(path_key(self.entries@[j].path@), path_key(path@)),
            decreases n - i,
        {
            let key = self.entries[i].path.as_str().as_bytes();
            match compare_bytes(key, target) {
                ByteOrder::Less => {
                    i = i + 1;
                },
                ByteOrder::Equal => {
                    proof {
                        broadcast use encode_utf8_decode_utf8;

                        assert(decode_utf8(encode_utf8(self.entries@[i as int].path@)) == decode_utf8(
                            encode_utf8(path@),
                        ));
                    }
                    return (i, true);
                },
                ByteOrder::Greater => {
                    proof {
                        assert forall|j: int| i <= j < self.entries@.len() implies bytes_lt(
                            path_key(path@),
                            path_key(self.entries@[j].path@),
                        ) by {
                            if j > i {
                                assert(paths_of(self.entries@)[i as int]
                                    == self.entries@[i as int].path@);
                                assert(paths_of(self.entries@)[j] == self.entries@[j].path@);
                                lemma_bytes_lt_transitive(
                                    path_key(path@),
                                    path_key(self.entries@[i as int].path@),
                                    path_key(self.entries@[j].path@),
                                );
                            }
                        }
                    }
                    return (i, false);
                },
            }
        }
        (n, false)
    }

    /// The status of the song at `path`, if the library holds it.
    pub fn get(&self, path: &str) -> (r: Option<SongStatus>)
        ensures
            r == if self@.dom().contains(path@) {
                Some(self@[path@])
            } else {
                None::<SongStatus>
            },
    {
        proof {
            use_type_invariant(self);
            lemma_map_of(self.entries@);
        }
        let (i, found) = self.locate(path);
        if found {
            Some(self.entries[i].status)
        } else {
            proof {
                lemma_not_found(self.entries@, path@, i as int);
            }
            None
        }
    }

    /// Whether the library holds the song at `path`.
    pub fn contains(&self, path: &str) -> (r: bool)
        ensures
            r == self@.dom().contains(path@),
    {
        self.get(path).is_some()
    }

    /// Gives the song at `path` the status `status`, adding it if the library
    /// does not hold it.
    pub fn set(&mut self, path: String, status: SongStatus)
        ensures
            final(self)@ == old(self)@.insert(path@, status),
    {
        proof {
            use_type_invariant(&*self);
            lemma_map_of(self.entries@);
        }
        let ghost old_entries = self.entries@;
        let ghost p = path@;
        let (i, found) = self.locate(path.as_str());
        let mut entries: Vec<LibraryEntry> = Vec::new();
        std::mem::swap(&mut entries, &mut self.entries);
        if found {
            proof {
                lemma_map_update(old_entries, i as int, LibraryEntry { path, status });
            }
            entries.set(i, LibraryEntry { path, status });
        } else {
            let ghost pos = i as int;
            proof {
                lemma_not_found(old_entries, p, pos);
            }
            entries.insert(i, LibraryEntry { path, status });
            proof {
                let s2 = entries@;
                assert forall|a: int, b: int|
                    0 <= a < b < paths_of(s2).len() implies bytes_lt(
                    path_key(#[trigger] paths_of(s2)[a]),
                    path_key(#[trigger] paths_of(s2)[b]),
                ) by {
                    if b < pos {
                        assert(paths_of(old_entries)[a] == paths_of(s2)[a]);
                        assert(paths_of(old_entries)[b] == paths_of(s2)[b]);
                    } else if b == pos {
                        assert(paths_of(s2)[a] == old_entries[a].path@);
                    } else if a == pos {
                        assert(paths_of(s2)[b] == old_entries[b - 1].path@);
                    } else if a < pos {
                        assert(paths_of(old_entries)[a] == paths_of(s2)[a]);
                        assert(paths_of(old_entries)[b - 1] == paths_of(s2)[b]);
                    } else {
                        assert(paths_of(old_entries)[a - 1] == paths_of(s2)[a]);
                        assert(paths_of(old_entries)[b - 1] == paths_of(s2)[b]);
                    }
                }
                lemma_map_of(s2);
                assert forall|k: Seq<char>| #![auto]
                    map_of(s2).dom().contains(k) <==> map_of(old_entries).insert(p, status).dom().contains(k) by {
                    if map_of(s2).dom().contains(k) {
                        let j = choose|j: int| 0 <= j < s2.len() && s2[j].path@ == k;
                        if j < pos {
                            assert(old_entries[j] == s2[j]);
                        } else if j > pos {
                            assert(old_entries[j - 1] == s2[j]);
                        }
                    }
                    if map_of(old_entries).dom().contains(k) {
                        let j = choose|j: int| 0 <= j < old_entries.len() && old_entries[j].path@ == k;
                        if j < pos {
                            assert(s2[j] == old_entries[j]);
                        } else {
                            assert(s2[j + 1] == old_entries[j]);
                        }
                    }
                    if k == p {
                        assert(s2[pos].path@ == p);
                    }
                }
                assert forall|k: Seq<char>| #![auto] map_of(s2).dom().contains(k) implies map_of(s2)[k]
                    == map_of(old_entries).insert(p, status)[k] by {
                    let j = choose|j: int| 0 <= j < s2.len() && s2[j].path@ == k;
                    if j < pos {
                        assert(old_entries[j] == s2[j]);
                        assert(paths_of(s2)[j] == k && paths_of(s2)[pos] == p);
                        lemma_ascending_distinct(paths_of(s2), j, pos);
                    } else if j > pos {
                        assert(old_entries[j - 1] == s2[j]);
                        assert(paths_of(s2)[j] == k && paths_of(s2)[pos] == p);
                        lemma_ascending_distinct(paths_of(s2), j, pos);
                    }
                }
                assert(map_of(s2) =~= map_of(old_entries).insert(p, status));
            }
        }
        self.entries = entries;
    }

    /// Gives the song at position `i` of the entries the status `status`.
    fn update_at(&mut self, i: usize, status: SongStatus)
        requires
            i < old(self).entries@.len(),
        ensures
            final(self)@ == old(self)@.insert(old(self).entries@[i as int].path@, status),
            final(self).entries@.len() == old(self).entries@.len(),
    {
        proof {
            use_type_invariant(&*self);
        }
        let ghost old_entries = self.entries@;
        let path = self.entries[i].path.clone();
        let mut entries: Vec<LibraryEntry> = Vec::new();
        std::mem::swap(&mut entries, &mut self.entries);
        proof {
            lemma_map_update(old_entries, i as int, LibraryEntry { path, status });
        }
        entries.set(i, LibraryEntry { path, status });
        self.entries = entries;
    }

    /// Takes the song at `path` out of the library, if it is there.
    pub fn remove(&mut self, path: &str)
        ensures
            final(self)@ == old(self)@.remove(path@),
    {
        proof {
            use_type_invariant(&*self);
        }
        let ghost old_entries = self.entries@;
        let (i, found) = self.locate(path);
        if found {
            let mut entries: Vec<LibraryEntry> = Vec::new();
            std::mem::swap(&mut entries, &mut self.entries);
            proof {
                lemma_map_remove(old_entries, i as int);
            }
            entries.remove(i);
            self.entries = entries;
        } else {
            proof {
                lemma_not_found(old_entries, path@, i as int);
                assert(old_entries == self.entries@);
                assert(self@ =~= old(self)@.remove(path@));
            }
        }
    }
    /// The status of the entry at position `i` is what the map holds for
    /// its path.
    proof fn lemma_entry(self, i: int)
        requires
            ascending(paths_of(self.entries@)),
            0 <= i < self.entries@.len(),
        ensures
            self@.dom().contains(self.entries@[i].path@),
            self@[self.entries@[i].path@] == self.entries@[i].status,
    {
        lemma_map_of(self.entries@);
    }

    /// Records what a scan of the library found for the music file at
    /// `path`: its `.lrc` file. A song that the library did not hold is added
    /// with the status that the file gives; a song that it held is updated as
    /// `spec_scanned_status` says. Returns whether the song is new.
    pub fn record_scan(&mut self, path: String, lrc: LrcFile) -> (is_new: bool)
        ensures
            is_new == !old(self)@.dom().contains(path@),
            final(self)@ == scanned(old(self)@, path@, lrc),
            lrc == LrcFile::Absent && old(self)@.dom().contains(path@) && old(self)@[path@]
                != SongStatus::Locked && old(self)@[path@] != SongStatus::TagErr && old(
                self,
            )@[path@] != SongStatus::NoResult ==> final(self)@[path@] == SongStatus::Unaccounted,
    {
        proof {
            use_type_invariant(&*self);
        }
        let found = status_from_scan(lrc);
        let (i, present) = self.locate(path.as_str());
        if present {
            proof {
                self.lemma_entry(i as int);
            }
            let current = self.entries[i].status;
            if current == SongStatus::Locked || (found == SongStatus::Unaccounted && (current
                == SongStatus::TagErr || current == SongStatus::NoResult)) {
                assert(self@ =~= old(self)@.insert(path@, current));
                return false;
            }
            if current != found {
                self.update_at(i, found);
            } else {
                assert(self@ =~= old(self)@.insert(path@, current));
            }
            false
        } else {
            proof {
                lemma_not_found(self.entries@, path@, i as int);
            }
            self.set(path, found);
            true
        }
    }

    /// Locks the song at `path`, or unlocks it if it is locked. An unlocked
    /// song takes the status that its `.lrc` file gives (`lrc`, only read when
    /// the song is locked). A song that the library does not hold is left out.
    pub fn toggle_lock(&mut self, path: &str, lrc: LrcFile) -> (r: LockChange)
        ensures
            final(self)@ == toggled(old(self)@, path@, lrc),
            !old(self)@.dom().contains(path@) ==> r == LockChange::Absent && *final(self) == *old(
                self,
            ),
            old(self)@.dom().contains(path@) && old(self)@[path@] == SongStatus::Locked ==> r
                == LockChange::Unlocked,
            old(self)@.dom().contains(path@) && old(self)@[path@] != SongStatus::Locked ==> r
                == LockChange::Locked,
    {
        proof {
            use_type_invariant(&*self);
        }
        let (i, present) = self.locate(path);
        if !present {
            proof {
                lemma_not_found(self.entries@, path@, i as int);
            }
            return LockChange::Absent;
        }
        proof {
            self.lemma_entry(i as int);
        }
        if self.entries[i].status == SongStatus::Locked {
            let next = status_after_unlock(lrc);
            self.update_at(i, next);
            LockChange::Unlocked
        } else {
            self.update_at(i, SongStatus::Locked);
            LockChange::Locked
        }
    }

    /// Gives the song at `path` the status `found` of a search if that status
    /// comes after its present one; returns the status it replaced.
    pub fn upgrade(&mut self, path: &str, found: SongStatus) -> (r: Option<SongStatus>)
        ensures
            final(self)@ == upgraded(old(self)@, path@, found),
            improves(old(self)@, path@, found) ==> r == Some(old(self)@[path@]),
            !improves(old(self)@, path@, found) ==> r is None && *final(self) == *old(self),
    {
        proof {
            use_type_invariant(&*self);
        }
        let (i, present) = self.locate(path);
        if !present {
            proof {
                lemma_not_found(self.entries@, path@, i as int);
            }
            return None;
        }
        proof {
            self.lemma_entry(i as int);
        }
        let current = self.entries[i].status;
        if found.is_above(&current) {
            self.update_at(i, found);
            Some(current)
        } else {
            None
        }
    }

    /// Takes out of the library every song whose path is listed.
    pub fn remove_all(&mut self, paths: &Vec<String>)
        ensures
            final(self)@ == old(self)@.remove_keys(views_of(paths@).to_set()),
    {
        let ghost views = views_of(paths@);
        let n = paths.len();
        assert(views.take(0).to_set() =~= Set::<Seq<char>>::empty());
        assert(old(self)@.remove_keys(Set::<Seq<char>>::empty()) =~= old(self)@);
        for i in 0..n
            invariant
                n == paths.len(),
                views == views_of(paths@),
                self@ == old(self)@.remove_keys(views.take(i as int).to_set()),
        {
            self.remove(paths[i].as_str());
            proof {
                assert forall|x: Seq<char>|
                    #[trigger] views.take(i + 1).to_set().contains(x) <==> views.take(
                        i as int,
                    ).to_set().insert(views[i as int]).contains(x) by {
                    if views.take(i + 1).contains(x) {
                        let j = choose|j: int| 0 <= j < i + 1 && #[trigger] views.take(i + 1)[j] == x;
                        if j < i {
                            assert(views.take(i as int)[j] == x);
                        }
                    }
                    if views.take(i as int).contains(x) {
                        let j = choose|j: int| 0 <= j < i && #[trigger] views.take(i as int)[j] == x;
                        assert(views.take(i + 1)[j] == x);
                    }
                    if x == views[i as int] {
                        assert(views.take(i + 1)[i as int] == x);
                    }
                }
                assert(views.take(i + 1).to_set() =~= views.take(i as int).to_set().insert(views[i as int]));
                assert(self@ =~= old(self)@.remove_keys(views.take(i + 1).to_set()));
            }
        }
        assert(views.take(n as int) =~= views);
    }

    /// The entries of the library, in increasing order of path.
    pub fn entries(&self) -> (r: Vec<LibraryEntry>)
        ensures
            ascending(paths_of(r@)),
            map_of(r@) == self@,
    {
        proof {
            use_type_invariant(self);
        }
        let n = self.entries.len();
        let mut r: Vec<LibraryEntry> = Vec::new();
        for i in 0..n
            invariant
                n == self.entries@.len(),
                r@ == self.entries@.take(i as int),
        {
            let e = &self.entries[i];
            r.push(LibraryEntry { path: e.path.clone(), status: e.status });
            assert(r@ =~= self.entries@.take(i + 1));
        }
        assert(r@ =~= self.entries@);
        r
    }

    /// The paths of the songs that a search for lyrics should look at, in
    /// increasing order: those that `spec_needs_search` selects.
    pub fn paths_to_search(&self, enable_synced: bool) -> (r: Vec<String>)
        ensures
            ascending(views_of(r@)),
            forall|k: Seq<char>|
                views_of(r@).contains(k) <==> (self@.dom().contains(k) && spec_needs_search(
                    self@[k],
                    enable_synced,
                )),
    {
        proof {
            use_type_invariant(self);
            lemma_map_of(self.entries@);
        }
        let n = self.entries.len();
        let mut r: Vec<String> = Vec::new();
        let ghost ps = paths_of(self.entries@);
        let ghost mut idx: Seq<int> = Seq::empty();
        for i in 0..n
            invariant
                n == self.entries@.len(),
                ps == paths_of(self.entries@),
                r@.len() == idx.len(),
                forall|a: int|
                    0 <= a < idx.len() ==> 0 <= #[trigger] idx[a] < i && r@[a]@ == ps[idx[a]]
                        && spec_needs_search(self.entries@[idx[a]].status, enable_synced),
                forall|a: int, b: int| 0 <= a < b < idx.len() ==> idx[a] < idx[b],
                forall|j: int|
                    0 <= j < i && spec_needs_search(#[trigger] self.entries@[j].status, enable_synced)
                        ==> exists|a: int| 0 <= a < idx.len() && idx[a] == j,
        {
            if needs_search(self.entries[i].status, enable_synced) {
                r.push(self.entries[i].path.clone());
                proof {
                    let old_idx = idx;
                    idx = idx.push(i as int);
                    assert forall|j: int|
                        0 <= j < i + 1 && spec_needs_search(
                            #[trigger] self.entries@[j].status,
                            enable_synced,
                        ) implies exists|a: int| 0 <= a < idx.len() && idx[a] == j by {
                        if j < i {
                            let a = choose|a: int| 0 <= a < old_idx.len() && old_idx[a] == j;
                            assert(idx[a] == j);
                        } else {
                            assert(idx[idx.len() - 1] == j);
                        }
                    }
                }
            }
        }
        proof {
            let rv = views_of(r@);
            assert forall|a: int, b: int| 0 <= a < b < rv.len() implies bytes_lt(
                path_key(#[trigger] rv[a]),
                path_key(#[trigger] rv[b]),
            ) by {
                assert(rv[a] == ps[idx[a]]);
                assert(rv[b] == ps[idx[b]]);
            }
            assert forall|k: Seq<char>|
                rv.contains(k) <==> (self@.dom().contains(k) && spec_needs_search(
                    self@[k],
                    enable_synced,
                )) by {
                if rv.contains(k) {
                    let a = choose|a: int| 0 <= a < rv.len() && rv[a] == k;
                    let j = idx[a];
                    assert(ps[j] == self.entries@[j].path@);
                    assert(self@[self.entries@[j].path@] == self.entries@[j].status);
                }
                if self@.dom().contains(k) && spec_needs_search(self@[k], enable_synced) {
                    let j = choose|j: int| 0 <= j < self.entries@.len() && self.entries@[j].path@ == k;
                    assert(self@[self.entries@[j].path@] == self.entries@[j].status);
                    let a = choose|a: int| 0 <= a < idx.len() && idx[a] == j;
                    assert(rv[a] == r@[a]@);
                    assert(ps[j] == k);
                }
            }
        }
        r
    }

    /// The number of songs in the library that have the status `filter`, or
    /// of all songs when there is no filter.
    pub fn count(&self, filter: Option<SongStatus>) -> (r: usize)
        ensures
            r == match filter {
                None => self@.dom().len(),
                Some(st) => status_count(self@, st),
            },
    {
        proof {
            use_type_invariant(self);
            lemma_map_of(self.entries@);
        }
        match filter {
            None => self.entries.len(),
            Some(st) => {
                let n = self.entries.len();
                let mut c: usize = 0;
                for i in 0..n
                    invariant
                        n == self.entries@.len(),
                        c == count_in(self.entries@.take(i as int), st),
                        c <= i,
                {
                    proof {
                        assert(self.entries@.take(i + 1).drop_last() =~= self.entries@.take(i as int));
                    }
                    if self.entries[i].status == st {
                        c = c + 1;
                    }
                }
                proof {
                    assert(self.entries@.take(n as int) =~= self.entries@);
                    lemma_count_map_of(self.entries@, st);
                }
                c
            },
        }
    }
    /// The songs that the library view shows for a status filter and a
    /// search text, in increasing order of path: those whose status passes
    /// the filter and whose path passes the search (compared in lowercase).
    pub fn listing(&self, filter: Option<SongStatus>, query: &str) -> (r: Vec<LibraryEntry>)
        ensures
            ascending(paths_of(r@)),
            forall|k: Seq<char>|
                #[trigger] map_of(r@).dom().contains(k) <==> (self@.dom().contains(k)
                    && matches_filter(self@[k], filter) && matches_query(k, lowercase(query@))),
            forall|k: Seq<char>| #[trigger] map_of(r@).dom().contains(k) ==> map_of(r@)[k] == self@[k],
            query@.len() == 0 ==> forall|k: Seq<char>|
                #[trigger] map_of(r@).dom().contains(k) <==> (self@.dom().contains(k)
                    && matches_filter(self@[k], filter)),
    {
        proof {
            use_type_invariant(self);
            lemma_map_of(self.entries@);
        }
        let q = to_lowercase(query);
        let q_empty = q.as_str().is_empty();
        let ghost qv = lowercase(query@);
        let n = self.entries.len();
        let mut r: Vec<LibraryEntry> = Vec::new();
        let ghost mut idx: Seq<int> = Seq::empty();
        for i in 0..n
            invariant
                n == self.entries@.len(),
                q@ == qv,
                q_empty == (qv.len() == 0),
                ascending(paths_of(self.entries@)),
                r@.len() == idx.len(),
                forall|a: int|
                    0 <= a < idx.len() ==> 0 <= #[trigger] idx[a] < i && r@[a] == self.entries@[idx[a]]
                        && matches_filter(self.entries@[idx[a]].status, filter) && matches_query(
                        self.entries@[idx[a]].path@,
                        qv,
                    ),
                forall|a: int, b: int| 0 <= a < b < idx.len() ==> idx[a] < idx[b],
                forall|j: int|
                    0 <= j < i && matches_filter(#[trigger] self.entries@[j].status, filter)
                        && matches_query(self.entries@[j].path@, qv) ==> exists|a: int|
                        0 <= a < idx.len() && idx[a] == j,
        {
            let e = &self.entries[i];
            let status_ok = match filter {
                None => true,
                Some(t) => e.status == t,
            };
            let query_ok = if q_empty {
                true
            } else {
                let lp = to_lowercase(e.path.as_str());
                contains_str(lp.as_str(), q.as_str())
            };
            if status_ok && query_ok {
                r.push(LibraryEntry { path: e.path.clone(), status: e.status });
                proof {
                    let old_idx = idx;
                    idx = idx.push(i as int);
                    assert forall|j: int|
                        0 <= j < i + 1 && matches_filter(#[trigger] self.entries@[j].status, filter)
                            && matches_query(self.entries@[j].path@, qv) implies exists|a: int|
                            0 <= a < idx.len() && idx[a] == j by {
                        if j < i {
                            let a = choose|a: int| 0 <= a < old_idx.len() && old_idx[a] == j;
                            assert(idx[a] == j);
                        } else {
                            assert(idx[idx.len() - 1] == j);
                        }
                    }
                }
            }
        }
        proof {
            let pr = paths_of(r@);
            let ps = paths_of(self.entries@);
            assert forall|a: int, b: int| 0 <= a < b < pr.len() implies bytes_lt(
                path_key(#[trigger] pr[a]),
                path_key(#[trigger] pr[b]),
            ) by {
                assert(pr[a] == ps[idx[a]]);
                assert(pr[b] == ps[idx[b]]);
            }
            lemma_map_of(r@);
            assert forall|k: Seq<char>|
                #[trigger] map_of(r@).dom().contains(k) <==> (self@.dom().contains(k)
                    && matches_filter(self@[k], filter) && matches_query(k, qv)) by {
                if map_of(r@).dom().contains(k) {
                    let a = choose|a: int| 0 <= a < r@.len() && r@[a].path@ == k;
                    let j = idx[a];
                    assert(self@[self.entries@[j].path@] == self.entries@[j].status);
                }
                if self@.dom().contains(k) && matches_filter(self@[k], filter) && matches_query(k, qv) {
                    let j = choose|j: int| 0 <= j < self.entries@.len() && self.entries@[j].path@ == k;
                    assert(self@[self.entries@[j].path@] == self.entries@[j].status);
                    let a = choose|a: int| 0 <= a < idx.len() && idx[a] == j;
                    assert(r@[a].path@ == k);
                }
            }
            assert forall|k: Seq<char>| #[trigger] map_of(r@).dom().contains(k) implies map_of(r@)[k]
                == self@[k] by {
                let a = choose|a: int| 0 <= a < r@.len() && r@[a].path@ == k;
                let j = idx[a];
                assert(map_of(r@)[r@[a].path@] == r@[a].status);
                assert(self@[self.entries@[j].path@] == self.entries@[j].status);
            }
        }
        r
    }
}

} // verus!
