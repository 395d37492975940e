//! The client's in-memory store of the last version of every file it has
//! sent, each with the minutes it has left. A new version of a stored file
//! is sent as a delta against the stored one.
use vstd::prelude::*;
use crate::byte_util::extend_bytes;
use crate::delta::{get_delta, is_delta_of, Delta};

verus! {

/// The mathematical content of a stored file.
pub struct FileView {
    pub data: Seq<u8>,
    pub time_remaining: u32,
}

/// One stored file: its last sent contents and the minutes it has left.
pub struct File {
    data: Vec<u8>,
    time_remaining: u32,
}

impl View for File {
    type V = FileView;

    closed spec fn view(&self) -> FileView {
        FileView { data: self.data@, time_remaining: self.time_remaining }
    }
}

impl File {
    pub fn new(data: Vec<u8>, time_remaining: u32) -> (r: Self)
        ensures
            r@ == (FileView { data: data@, time_remaining }),
    {
        File { data, time_remaining }
    }
}

/// The map whose entries are the pairs of `s`, later pairs winning.
pub open spec fn map_of(s: Seq<(Seq<char>, FileView)>) -> Map<Seq<char>, FileView>
    decreases s.len(),
{
    if s.len() == 0 {
        Map::empty()
    } else {
        map_of(s.drop_last()).insert(s.last().0, s.last().1)
    }
}

/// No two pairs of `s` have the same key.
pub open spec fn distinct_keys(s: Seq<(Seq<char>, FileView)>) -> bool {
    forall|i: int, j: int| 0 <= i < s.len() && 0 <= j < s.len() && i != j ==> s[i].0 != s[j].0
}

/// The store after a cleanup once `minutes` have passed: the files with
/// at least that much time left stay, with that time taken off; the others
/// are removed.
pub open spec fn cleaned(m: Map<Seq<char>, FileView>, minutes: u32) -> Map<Seq<char>, FileView> {
    Map::new(
        |k: Seq<char>| m.contains_key(k) && m[k].time_remaining >= minutes,
        |k: Seq<char>|
            FileView { data: m[k].data, time_remaining: (m[k].time_remaining - minutes) as u32 },
    )
}

/// Two cleanups after `a` and then `b` minutes leave the store as one
/// cleanup after `a + b` minutes would, so minutes of a skipped cleanup can
/// be added to the next one.
pub proof fn law_cleanups_add_up(m: Map<Seq<char>, FileView>, a: u32, b: u32)
    requires
        a + b <= u32::MAX,
    ensures
        cleaned(cleaned(m, a), b) == cleaned(m, (a + b) as u32),
{
    assert(cleaned(cleaned(m, a), b) =~= cleaned(m, (a + b) as u32));
}

proof fn lemma_map_of(s: Seq<(Seq<char>, FileView)>)
    ensures
        forall|k: Seq<char>|
            #[trigger] map_of(s).contains_key(k) <==> exists|i: int|
                0 <= i < s.len() && s[i].0 == k,
        distinct_keys(s) ==> forall|i: int|
            0 <= i < s.len() ==> #[trigger] map_of(s)[s[i].0] == s[i].1,
    decreases s.len(),
{
    if s.len() > 0 {
        let t = s.drop_last();
        lemma_map_of(t);
        assert forall|k: Seq<char>| #[trigger] map_of(s).contains_key(k) implies exists|i: int|
            0 <= i < s.len() && s[i].0 == k by {
            assert(map_of(s) == map_of(t).insert(s.last().0, s.last().1));
            if k != s.last().0 {
                assert(map_of(t).contains_key(k));
                let i = choose|i: int| 0 <= i < t.len() && t[i].0 == k;
                assert(s[i].0 == k);
            } else {
                assert(s[s.len() - 1].0 == k);
            }
        }
        assert forall|k: Seq<char>|
            (exists|i: int| 0 <= i < s.len() && s[i].0 == k) implies #[trigger] map_of(
            s,
        ).contains_key(k) by {
            let i = choose|i: int| 0 <= i < s.len() && s[i].0 == k;
            assert(map_of(s) == map_of(t).insert(s.last().0, s.last().1));
            if i < s.len() - 1 {
                assert(t[i].0 == k);
                assert(map_of(t).contains_key(k));
            }
        }
        if distinct_keys(s) {
            assert(distinct_keys(t));
            assert forall|i: int| 0 <= i < s.len() implies #[trigger] map_of(s)[s[i].0]
                == s[i].1 by {
                assert(map_of(s) == map_of(t).insert(s.last().0, s.last().1));
                if i < s.len() - 1 {
                    assert(t[i] == s[i]);
                    assert(s[i].0 != s[s.len() - 1].0);
                    assert(map_of(t)[t[i].0] == t[i].1);
                }
            }
        }
    }
}

proof fn lemma_map_of_prepend(x: (Seq<char>, FileView), t: Seq<(Seq<char>, FileView)>)
    requires
        distinct_keys(seq![x] + t),
    ensures
        map_of(seq![x] + t) == map_of(t).insert(x.0, x.1),
        distinct_keys(t),
{
    let s = seq![x] + t;
    lemma_map_of(s);
    lemma_map_of(t);
    assert(distinct_keys(t)) by {
        assert forall|i: int, j: int|
            0 <= i < t.len() && 0 <= j < t.len() && i != j implies t[i].0 != t[j].0 by {
            assert(s[i + 1] == t[i] && s[j + 1] == t[j]);
        }
    }
    assert forall|k: Seq<char>| #[trigger] map_of(s).contains_key(k) == map_of(t).insert(
        x.0,
        x.1,
    ).contains_key(k) by {
        if map_of(s).contains_key(k) && k != x.0 {
            let i = choose|i: int| 0 <= i < s.len() && s[i].0 == k;
            assert(t[i - 1].0 == k);
        }
        if map_of(t).contains_key(k) {
            let i = choose|i: int| 0 <= i < t.len() && t[i].0 == k;
            assert(s[i + 1].0 == k);
        }
        if k == x.0 {
            assert(s[0].0 == k);
        }
    }
    assert forall|k: Seq<char>| #[trigger] map_of(s).contains_key(k) implies map_of(s)[k]
        == map_of(t).insert(x.0, x.1)[k] by {
        let i = choose|i: int| 0 <= i < s.len() && s[i].0 == k;
        if i == 0 {
            assert(map_of(s)[s[0].0] == s[0].1);
        } else {
            assert(map_of(s)[s[i].0] == s[i].1);
            assert(s[i] == t[i - 1]);
            assert(map_of(t)[t[i - 1].0] == t[i - 1].1);
            assert(s[i].0 != s[0].0);
        }
    }
    assert(map_of(s) =~= map_of(t).insert(x.0, x.1));
}

proof fn lemma_map_of_update(s: Seq<(Seq<char>, FileView)>, i: int, v: FileView)
    requires
        distinct_keys(s),
        0 <= i < s.len(),
    ensures
        distinct_keys(s.update(i, (s[i].0, v))),
        map_of(s.update(i, (s[i].0, v))) == map_of(s).insert(s[i].0, v),
{
    let u = s.update(i, (s[i].0, v));
    assert(distinct_keys(u)) by {
        assert forall|a: int, b: int|
            0 <= a < u.len() && 0 <= b < u.len() && a != b implies u[a].0 != u[b].0 by {
            assert(u[a].0 == s[a].0 && u[b].0 == s[b].0);
        }
    }
    lemma_map_of(s);
    lemma_map_of(u);
    assert forall|k: Seq<char>| #[trigger] map_of(u).contains_key(k) == map_of(s).insert(
        s[i].0,
        v,
    ).contains_key(k) by {
        if map_of(u).contains_key(k) {
            let j = choose|j: int| 0 <= j < u.len() && u[j].0 == k;
            assert(s[j].0 == k);
        }
        if map_of(s).contains_key(k) {
            let j = choose|j: int| 0 <= j < s.len() && s[j].0 == k;
            assert(u[j].0 == k);
        }
        assert(u[i].0 == s[i].0);
    }
    assert forall|k: Seq<char>| #[trigger] map_of(u).contains_key(k) implies map_of(u)[k]
        == map_of(s).insert(s[i].0, v)[k] by {
        let j = choose|j: int| 0 <= j < u.len() && u[j].0 == k;
        assert(map_of(u)[u[j].0] == u[j].1);
        if j != i {
            assert(map_of(s)[s[j].0] == s[j].1);
            assert(s[j].0 != s[i].0);
        }
    }
    assert(map_of(u) =~= map_of(s).insert(s[i].0, v));
}

/// The store of sent files.
pub struct FileData {
    paths: Vec<String>,
    files: Vec<File>,
    file_store_time: u32,
    max_total_size: u32,
    cur_total_size: u32,
}

impl FileData {
    /// The stored pairs of path and file, in storage order.
    pub closed spec fn entries(&self) -> Seq<(Seq<char>, FileView)> {
        Seq::new(self.paths@.len(), |i: int| (self.paths@[i]@, self.files@[i]@))
    }

    /// The stored files by path.
    pub closed spec fn files(&self) -> Map<Seq<char>, FileView> {
        map_of(self.entries())
    }

    /// The minutes a newly stored version starts with.
    pub closed spec fn store_time(&self) -> u32 {
        self.file_store_time
    }

    /// The running total size of the stored files, which the store keeps
    /// at the value it starts with.
    pub closed spec fn total_size(&self) -> u32 {
        self.cur_total_size
    }

    /// The configured size limit, in megabytes.
    pub closed spec fn max_size(&self) -> u32 {
        self.max_total_size
    }

    /// Every path is stored once and every stored version is small enough
    /// for its length to be counted in 64 bits.
    pub closed spec fn wf(&self) -> bool {
        &&& self.paths@.len() == self.files@.len()
        &&& distinct_keys(self.entries())
        &&& forall|i: int| 0 <= i < self.files@.len() ==> self.files@[i]@.data.len() < u64::MAX
    }

    /// An empty store with the configured keeping time (seconds) and size
    /// limit (megabytes), each cut to its low 32 bits.
    pub fn from_config(file_store_time_seconds: u64, max_total_size_mb: u64) -> (r: Self)
        ensures
            r.wf(),
            r.files() == Map::<Seq<char>, FileView>::empty(),
            r.store_time() == file_store_time_seconds as u32,
            r.max_size() == max_total_size_mb as u32,
            r.total_size() == 0,
    {
        let r = FileData {
            paths: Vec::new(),
            files: Vec::new(),
            file_store_time: file_store_time_seconds as u32,
            max_total_size: max_total_size_mb as u32,
            cur_total_size: 0,
        };
        assert(r.entries() =~= Seq::<(Seq<char>, FileView)>::empty());
        r
    }

    fn find(&self, path: &String) -> (r: Option<usize>)
        requires
            self.wf(),
        ensures
            r matches Some(i) ==> i < self.paths@.len() && self.entries()[i as int].0 == path@,
            r is None ==> !self.files().contains_key(path@),
    {
        proof {
            lemma_map_of(self.entries());
        }
        let mut i: usize = 0;
        while i < self.paths.len()
            invariant
                self.wf(),
                i <= self.paths@.len(),
                forall|j: int| 0 <= j < i ==> self.entries()[j].0 != path@,
            decreases self.paths@.len() - i,
        {
            if self.paths[i] == *path {
                return Some(i);
            }
            i += 1;
        }
        None
    }

    /// Records the current contents `buf` of the file at `path` and returns
    /// what to send: the whole file (a delta with start 0, end 0 and hash
    /// 0) when the file was not stored, otherwise the delta from the stored
    /// version. Either way `buf` becomes the stored version, kept for the
    /// store's keeping time.
    pub fn get_file_delta(&mut self, path: &str, buf: Vec<u8>) -> (r: Delta)
        requires
            old(self).wf(),
            buf@.len() < u64::MAX,
        ensures
            final(self).wf(),
            final(self).store_time() == old(self).store_time(),
            final(self).max_size() == old(self).max_size(),
            final(self).total_size() == old(self).total_size(),
            final(self).files() == old(self).files().insert(
                path@,
                FileView { data: buf@, time_remaining: old(self).store_time() },
            ),
            !old(self).files().contains_key(path@) ==> r.start_index == 0 && r.end_index == 0
                && r.data@ == buf@ && r.old_hash == 0,
            old(self).files().contains_key(path@) ==> is_delta_of(
                r,
                old(self).files()[path@].data,
                buf@,
            ),
    {
        let key: String = path.to_owned();
        let ghost before = self.entries();
        proof {
            lemma_map_of(before);
        }
        match self.find(&key) {
            None => {
                let mut data_clone: Vec<u8> = Vec::new();
                extend_bytes(&mut data_clone, buf.as_slice());
                let f = File::new(buf, self.file_store_time);
                self.paths.push(key);
                self.files.push(f);
                let ghost x = (path@, FileView { data: data_clone@, time_remaining: self.file_store_time });
                assert(self.entries() =~= before.push(x));
                assert(self.entries().drop_last() =~= before);
                assert(distinct_keys(self.entries())) by {
                    assert forall|a: int, b: int|
                        0 <= a < self.entries().len() && 0 <= b < self.entries().len() && a
                            != b implies self.entries()[a].0 != self.entries()[b].0 by {
                        if a < before.len() && b < before.len() {
                            assert(self.entries()[a] == before[a]);
                            assert(self.entries()[b] == before[b]);
                        } else if a < before.len() {
                            assert(self.entries()[a] == before[a]);
                        } else {
                            assert(self.entries()[b] == before[b]);
                        }
                    }
                }
                Delta::new(0, 0, data_clone, 0)
            },
            Some(i) => {
                assert(old(self).files()[path@] == before[i as int].1) by {
                    assert(map_of(before)[before[i as int].0] == before[i as int].1);
                }
                let output_data = get_delta(&self.files[i].data, &buf);
                let f = File::new(buf, self.file_store_time);
                let ghost v = f@;
                self.files.set(i, f);
                proof {
                    lemma_map_of_update(before, i as int, v);
                    assert(self.entries() =~= before.update(i as int, (before[i as int].0, v)));
                }
                output_data
            },
        }
    }

    /// Lets `minutes_passed` minutes pass: a stored file with at least
    /// that much time left keeps its contents and loses that much time, the
    /// others are removed. The cleanup always runs (the store is held
    /// exclusively), so `true` is returned; `false` would tell that the
    /// cleanup was skipped and nothing changed.
    pub fn clean_ram(&mut self, minutes_passed: u32) -> (r: bool)
        requires
            old(self).wf(),
        ensures
            r,
            r ==> final(self).files() == cleaned(old(self).files(), minutes_passed),
            !r ==> final(self).files() == old(self).files(),
            final(self).wf(),
            final(self).store_time() == old(self).store_time(),
            final(self).max_size() == old(self).max_size(),
            final(self).total_size() == old(self).total_size(),
    {
        let ghost orig = self.entries();
        let mut old_paths: Vec<String> = Vec::new();
        let mut old_files: Vec<File> = Vec::new();
        std::mem::swap(&mut old_paths, &mut self.paths);
        std::mem::swap(&mut old_files, &mut self.files);
        assert(self.entries() =~= Seq::<(Seq<char>, FileView)>::empty());
        proof {
            lemma_map_of(orig);
        }
        let ghost n = orig.len();
        while old_files.len() > 0
            invariant
                old_paths@.len() == old_files@.len(),
                old_files@.len() <= n,
                n == orig.len(),
                forall|j: int|
                    0 <= j < old_files@.len() ==> orig[j] == (old_paths@[j]@, old_files@[j]@),
                distinct_keys(orig),
                forall|j: int| 0 <= j < n ==> orig[j].1.data.len() < u64::MAX,
                self.paths@.len() == self.files@.len(),
                distinct_keys(self.entries()),
                forall|j: int| 0 <= j < self.files@.len() ==> self.files@[j]@.data.len() < u64::MAX,
                forall|j: int|
                    0 <= j < self.entries().len() ==> exists|k: int|
                        old_files@.len() <= k < n && orig[k].0 == #[trigger] self.entries()[j].0,
                map_of(self.entries()) == cleaned(
                    map_of(orig.skip(old_files@.len() as int)),
                    minutes_passed,
                ),
                self.cur_total_size == old(self).cur_total_size,
                self.file_store_time == old(self).file_store_time,
                self.max_total_size == old(self).max_total_size,
            decreases old_files@.len(),
        {
            let ghost k = old_files@.len() as int;
            let ghost before = self.entries();
            let f = old_files.pop().unwrap();
            let p = old_paths.pop().unwrap();
            let ghost x = orig[k - 1];
            assert(orig.skip(k - 1) =~= seq![x] + orig.skip(k));
            let ghost s2 = orig.skip(k - 1);
            assert(distinct_keys(seq![x] + orig.skip(k))) by {
                assert forall|a: int, b: int|
                    0 <= a < s2.len() && 0 <= b < s2.len() && a != b implies #[trigger] s2[a].0
                    != #[trigger] s2[b].0 by {
                    assert(s2[a] == orig[a + k - 1]);
                    assert(s2[b] == orig[b + k - 1]);
                }
            }
            proof {
                lemma_map_of_prepend(x, orig.skip(k));
                lemma_map_of(orig.skip(k));
            }
            assert(!map_of(orig.skip(k)).contains_key(x.0)) by {
                if map_of(orig.skip(k)).contains_key(x.0) {
                    let j = choose|j: int| 0 <= j < orig.skip(k).len() && orig.skip(k)[j].0 == x.0;
                    assert(orig.skip(k)[j] == orig[j + k]);
                }
            }
            if f.time_remaining >= minutes_passed {
                let nf = File { data: f.data, time_remaining: f.time_remaining - minutes_passed };
                let ghost y = (x.0, nf@);
                self.paths.push(p);
                self.files.push(nf);
                assert(self.entries() =~= before.push(y));
                assert(self.entries().drop_last() =~= before);
                assert(distinct_keys(self.entries())) by {
                    assert forall|a: int, b: int|
                        0 <= a < self.entries().len() && 0 <= b < self.entries().len() && a
                            != b implies self.entries()[a].0 != self.entries()[b].0 by {
                        if a < before.len() && b < before.len() {
                            assert(self.entries()[a] == before[a]);
                            assert(self.entries()[b] == before[b]);
                        } else if a < before.len() {
                            assert(self.entries()[a] == before[a]);
                            let kk = choose|kk: int|
                                k <= kk < n && orig[kk].0 == #[trigger] before[a].0;
                        } else {
                            assert(self.entries()[b] == before[b]);
                            let kk = choose|kk: int|
                                k <= kk < n && orig[kk].0 == #[trigger] before[b].0;
                        }
                    }
                }
                assert forall|j: int| 0 <= j < self.entries().len() implies exists|kk: int|
                    old_files@.len() <= kk < n && orig[kk].0 == #[trigger] self.entries()[j].0 by {
                    if j < before.len() {
                        assert(self.entries()[j] == before[j]);
                        let kk = choose|kk: int| k <= kk < n && orig[kk].0 == #[trigger] before[j].0;
                    } else {
                        assert(orig[k - 1].0 == self.entries()[j].0);
                    }
                }
                assert(map_of(self.entries()) =~= cleaned(
                    map_of(orig.skip(k - 1)),
                    minutes_passed,
                ));
            } else {
                assert forall|j: int| 0 <= j < self.entries().len() implies exists|kk: int|
                    old_files@.len() <= kk < n && orig[kk].0 == #[trigger] self.entries()[j].0 by {
                    let kk = choose|kk: int| k <= kk < n && orig[kk].0 == #[trigger] before[j].0;
                }
                assert(map_of(self.entries()) =~= cleaned(
                    map_of(orig.skip(k - 1)),
                    minutes_passed,
                ));
            }
        }
        assert(orig.skip(0) =~= orig);
        true
    }
}

} // verus!
