//! The disk boundary. The runner depends on the `FileSystem` abstraction;
//! the program injects the real file system, tests use `InMemoryFs`.

use vstd::prelude::*;
use vstd::string::StringExecFns;

use crate::error::CliError;
use crate::paths::{path_key, same_path, PathKey};
use crate::text::{main_separator, platform_separator};

verus! {

/// A call that changed (or tried to change) a file system, with what it
/// returned.
pub enum FsCall {
    /// `create_dir_all` of this path.
    CreateDir(Seq<char>, Result<(), CliError>),
    /// `write` of these contents to this path.
    Write(Seq<char>, Seq<char>, Result<(), CliError>),
}

/// What the call `c` returned.
pub open spec fn call_result(c: FsCall) -> Result<(), CliError> {
    match c {
        FsCall::CreateDir(_, r) => r,
        FsCall::Write(_, _, r) => r,
    }
}

/// Where files are looked up and written.
///
/// Paths are compared as `std::path::Path` compares them, by their
/// components (see [`path_key`]) under the main separator `sep`. `files` is
/// the file system as its implementation presents it: each path that
/// exists, with what it holds. `made_by_create_dir(path)` is what creating
/// the directory `path` makes exist, `dirs` holds the directories created
/// through it, `calls` every directory creation and write asked of it, in
/// order, with what each returned, and `accepts` says that every directory
/// creation and write from now on succeeds.
pub trait FileSystem {
    spec fn sep(&self) -> char;

    spec fn files(&self) -> Map<PathKey, Seq<char>>;

    spec fn made_by_create_dir(&self, path: Seq<char>) -> Map<PathKey, Seq<char>>;

    spec fn dirs(&self) -> Set<PathKey>;

    spec fn calls(&self) -> Seq<FsCall>;

    spec fn accepts(&self) -> bool;

    /// The main path separator.
    fn separator(&self) -> (c: char)
        ensures
            c == self.sep(),
            platform_separator(c),
    ;

    /// Whether something exists at `path`.
    fn path_exists(&self, path: &str) -> (r: bool)
        ensures
            r == self.files().dom().contains(path_key(path@, self.sep())),
    ;

    /// Create `path` and its parents; existing files are kept as they are.
    fn create_dir_all(&mut self, path: &str) -> (r: Result<(), CliError>)
        ensures
            final(self).sep() == old(self).sep(),
            final(self).calls() == old(self).calls().push(FsCall::CreateDir(path@, r)),
            old(self).accepts() ==> r is Ok && final(self).accepts(),
            r is Ok ==> final(self).dirs() == old(self).dirs().insert(path_key(path@, old(self).sep())),
            r is Ok ==> final(self).files() == old(self).made_by_create_dir(path@).union_prefer_right(
                old(self).files(),
            ),
    ;

    /// Write `contents` to the file at `path`, replacing what was there.
    fn write(&mut self, path: &str, contents: &str) -> (r: Result<(), CliError>)
        ensures
            final(self).sep() == old(self).sep(),
            final(self).calls() == old(self).calls().push(FsCall::Write(path@, contents@, r)),
            old(self).accepts() ==> r is Ok && final(self).accepts(),
            r is Ok ==> final(self).dirs() == old(self).dirs(),
            r is Ok ==> final(self).files() == old(self).files().insert(
                path_key(path@, old(self).sep()),
                contents@,
            ),
    ;
}

/// The map that a list of paths and a parallel list of contents make, paths
/// compared by their components under `sep`.
pub closed spec fn entries_map(paths: Seq<String>, data: Seq<String>, sep: char) -> Map<PathKey, Seq<char>>
    decreases paths.len(),
{
    if paths.len() == 0 {
        Map::empty()
    } else {
        entries_map(paths.drop_last(), data, sep).insert(path_key(paths.last()@, sep), data[paths.len() - 1]@)
    }
}

/// No two of `paths` are the same path under `sep`.
pub open spec fn distinct_paths(paths: Seq<String>, sep: char) -> bool {
    forall|i: int, j: int|
        0 <= i < paths.len() && 0 <= j < paths.len() && i != j ==> path_key(paths[i]@, sep) != path_key(
            paths[j]@,
            sep,
        )
}

proof fn lemma_distinct_drop_last(paths: Seq<String>, sep: char)
    requires
        paths.len() > 0,
        distinct_paths(paths, sep),
    ensures
        distinct_paths(paths.drop_last(), sep),
{
    let p = paths.drop_last();
    assert forall|a: int, b: int| 0 <= a < p.len() && 0 <= b < p.len() && a != b implies path_key(
        p[a]@,
        sep,
    ) != path_key(p[b]@, sep) by {
        assert(p[a] == paths[a] && p[b] == paths[b]);
    }
}

proof fn lemma_entries_dom(paths: Seq<String>, data: Seq<String>, sep: char, k: PathKey)
    ensures
        entries_map(paths, data, sep).dom().contains(k) <==> exists|i: int|
            0 <= i < paths.len() && path_key((#[trigger] paths[i])@, sep) == k,
    decreases paths.len(),
{
    if paths.len() > 0 {
        lemma_entries_dom(paths.drop_last(), data, sep, k);
        if exists|i: int| 0 <= i < paths.len() && path_key((#[trigger] paths[i])@, sep) == k {
            let i = choose|i: int| 0 <= i < paths.len() && path_key((#[trigger] paths[i])@, sep) == k;
            if i < paths.len() - 1 {
                assert(paths.drop_last()[i] == paths[i]);
            }
        }
        if exists|i: int|
            0 <= i < paths.drop_last().len() && path_key((#[trigger] paths.drop_last()[i])@, sep) == k {
            let i = choose|i: int|
                0 <= i < paths.drop_last().len() && path_key((#[trigger] paths.drop_last()[i])@, sep) == k;
            assert(paths[i] == paths.drop_last()[i]);
        }
    }
}

proof fn lemma_entries_value(paths: Seq<String>, data: Seq<String>, sep: char, i: int)
    requires
        distinct_paths(paths, sep),
        0 <= i < paths.len(),
    ensures
        entries_map(paths, data, sep).dom().contains(path_key(paths[i]@, sep)),
        entries_map(paths, data, sep)[path_key(paths[i]@, sep)] == data[i]@,
    decreases paths.len(),
{
    if i < paths.len() - 1 {
        let p = paths.drop_last();
        lemma_distinct_drop_last(paths, sep);
        assert(p[i] == paths[i]);
        lemma_entries_value(p, data, sep, i);
        assert(path_key(paths[i]@, sep) != path_key(paths[paths.len() - 1]@, sep));
    }
}

proof fn lemma_entries_data_prefix(paths: Seq<String>, d1: Seq<String>, d2: Seq<String>, sep: char)
    requires
        paths.len() <= d1.len(),
        paths.len() <= d2.len(),
        forall|i: int| 0 <= i < paths.len() ==> d1[i] == d2[i],
    ensures
        entries_map(paths, d1, sep) == entries_map(paths, d2, sep),
    decreases paths.len(),
{
    if paths.len() > 0 {
        lemma_entries_data_prefix(paths.drop_last(), d1, d2, sep);
    }
}

proof fn lemma_entries_push(paths: Seq<String>, data: Seq<String>, sep: char, k: String, v: String)
    requires
        paths.len() == data.len(),
    ensures
        entries_map(paths.push(k), data.push(v), sep) == entries_map(paths, data, sep).insert(
            path_key(k@, sep),
            v@,
        ),
{
    lemma_entries_data_prefix(paths, data, data.push(v), sep);
    assert(paths.push(k).drop_last() =~= paths);
}

proof fn lemma_entries_update(paths: Seq<String>, data: Seq<String>, sep: char, i: int, v: String)
    requires
        distinct_paths(paths, sep),
        paths.len() == data.len(),
        0 <= i < paths.len(),
    ensures
        entries_map(paths, data.update(i, v), sep) == entries_map(paths, data, sep).insert(
            path_key(paths[i]@, sep),
            v@,
        ),
    decreases paths.len(),
{
    let n = paths.len();
    let p = paths.drop_last();
    if i == n - 1 {
        lemma_entries_data_prefix(p, data, data.update(i, v), sep);
        assert(entries_map(paths, data.update(i, v), sep) =~= entries_map(paths, data, sep).insert(
            path_key(paths[i]@, sep),
            v@,
        ));
    } else {
        lemma_distinct_drop_last(paths, sep);
        let d = data.subrange(0, n - 1);
        lemma_entries_data_prefix(p, data, d, sep);
        lemma_entries_data_prefix(p, data.update(i, v), d.update(i, v), sep);
        assert(p[i] == paths[i]);
        lemma_entries_update(p, d, sep, i, v);
        assert(path_key(paths[i]@, sep) != path_key(paths[n - 1]@, sep));
        assert(entries_map(paths, data.update(i, v), sep) =~= entries_map(paths, data, sep).insert(
            path_key(paths[i]@, sep),
            v@,
        ));
    }
}

/// Test sink: keeps written files in memory, comparing paths by their
/// components under the platform's separator.
pub struct InMemoryFs {
    paths: Vec<String>,
    data: Vec<String>,
    dirs: Vec<String>,
    log: Ghost<Seq<FsCall>>,
    sep: char,
}

impl InMemoryFs {
    #[verifier::type_invariant]
    spec fn well_formed(self) -> bool {
        &&& self.paths@.len() == self.data@.len()
        &&& distinct_paths(self.paths@, self.sep)
        &&& platform_separator(self.sep)
    }

    /// The directories created so far.
    pub closed spec fn dir_set(&self) -> Set<PathKey> {
        Set::new(
            |d: PathKey|
                exists|i: int| 0 <= i < self.dirs@.len() && path_key((#[trigger] self.dirs@[i])@, self.sep) == d,
        )
    }

    /// An empty file system, under the platform's main separator.
    pub fn new() -> (r: Self)
        ensures
            r.files() == Map::<PathKey, Seq<char>>::empty(),
            r.dir_set() == Set::<PathKey>::empty(),
            r.calls() == Seq::<FsCall>::empty(),
            platform_separator(r.sep()),
    {
        let sep = main_separator();
        Self::with_separator(sep)
    }

    /// An empty file system under the main separator `sep`.
    fn with_separator(sep: char) -> (r: Self)
        requires
            platform_separator(sep),
        ensures
            r.files() == Map::<PathKey, Seq<char>>::empty(),
            r.dir_set() == Set::<PathKey>::empty(),
            r.calls() == Seq::<FsCall>::empty(),
            r.sep() == sep,
    {
        let r = InMemoryFs {
            paths: Vec::new(),
            data: Vec::new(),
            dirs: Vec::new(),
            log: Ghost(Seq::empty()),
            sep,
        };
        assert(r.dir_set() =~= Set::<PathKey>::empty());
        r
    }

    /// Index of the stored path that is the same path as `path`, if any.
    fn find(&self, path: &str) -> (r: Option<usize>)
        ensures
            r matches Some(i) ==> i < self.paths@.len() && path_key(self.paths@[i as int]@, self.sep)
                == path_key(path@, self.sep),
            r is None ==> forall|i: int|
                0 <= i < self.paths@.len() ==> path_key((#[trigger] self.paths@[i])@, self.sep) != path_key(
                    path@,
                    self.sep,
                ),
    {
        let n = self.paths.len();
        let mut i: usize = 0;
        while i < n
            invariant
                n == self.paths@.len(),
                i <= n,
                forall|k: int|
                    0 <= k < i ==> path_key((#[trigger] self.paths@[k])@, self.sep) != path_key(
                        path@,
                        self.sep,
                    ),
            decreases n - i,
        {
            if same_path(self.paths[i].as_str(), path, self.sep) {
                return Some(i);
            }
            i = i + 1;
        }
        None
    }

    /// Store `contents` at `path`, replacing what was there.
    fn put(&mut self, path: &str, contents: &str)
        ensures
            final(self).files() == old(self).files().insert(path_key(path@, old(self).sep()), contents@),
            final(self).dir_set() == old(self).dir_set(),
            final(self).calls() == old(self).calls(),
            final(self).sep() == old(self).sep(),
    {
        proof {
            use_type_invariant(&*self);
        }
        let value = String::from_str(contents);
        let found = self.find(path);
        let sep = self.sep;
        let mut taken = InMemoryFs::with_separator(sep);
        std::mem::swap(&mut taken, self);
        let InMemoryFs { mut paths, mut data, dirs, log, sep } = taken;
        match found {
            Some(i) => {
                proof {
                    lemma_entries_update(paths@, data@, sep, i as int, value);
                }
                data.set(i, value);
            },
            None => {
                let key = String::from_str(path);
                proof {
                    lemma_entries_push(paths@, data@, sep, key, value);
                    assert(distinct_paths(paths@.push(key), sep)) by {
                        let ps = paths@.push(key);
                        assert forall|a: int, b: int|
                            0 <= a < ps.len() && 0 <= b < ps.len() && a != b implies path_key(ps[a]@, sep)
                            != path_key(ps[b]@, sep) by {
                            if a < paths@.len() {
                                assert(ps[a] == paths@[a]);
                            }
                            if b < paths@.len() {
                                assert(ps[b] == paths@[b]);
                            }
                        }
                    }
                }
                paths.push(key);
                data.push(value);
            },
        }
        *self = InMemoryFs { paths, data, dirs, log, sep };
    }

    /// Seed a pre-existing file (to exercise collision handling).
    pub fn seed(&mut self, path: &str, contents: &str)
        ensures
            final(self).files() == old(self).files().insert(path_key(path@, old(self).sep()), contents@),
            final(self).dir_set() == old(self).dir_set(),
            final(self).calls() == old(self).calls(),
            final(self).sep() == old(self).sep(),
    {
        self.put(path, contents);
    }

    /// Add `call` to the log of calls.
    fn record(&mut self, Ghost(call): Ghost<FsCall>)
        ensures
            final(self).files() == old(self).files(),
            final(self).dir_set() == old(self).dir_set(),
            final(self).calls() == old(self).calls().push(call),
            final(self).sep() == old(self).sep(),
    {
        proof {
            use_type_invariant(&*self);
        }
        let mut taken = InMemoryFs::with_separator(self.sep);
        std::mem::swap(&mut taken, self);
        let InMemoryFs { paths, data, dirs, log, sep } = taken;
        let log = Ghost(log@.push(call));
        *self = InMemoryFs { paths, data, dirs, log, sep };
        proof {
            assert(self.dir_set() =~= old(self).dir_set());
        }
    }

    /// The stored files as `(path, contents)` pairs, each path once, as it
    /// was first written.
    pub fn entries(&self) -> (r: Vec<(String, String)>)
        ensures
            forall|k: PathKey|
                self.files().dom().contains(k) <==> exists|i: int|
                    0 <= i < r@.len() && path_key((#[trigger] r@[i]).0@, self.sep()) == k,
            forall|i: int|
                0 <= i < r@.len() ==> self.files()[path_key((#[trigger] r@[i]).0@, self.sep())] == r@[i].1@,
            forall|i: int, j: int|
                0 <= i < r@.len() && 0 <= j < r@.len() && i != j ==> path_key(r@[i].0@, self.sep())
                    != path_key(r@[j].0@, self.sep()),
    {
        proof {
            use_type_invariant(self);
        }
        let n = self.paths.len();
        let mut r: Vec<(String, String)> = Vec::new();
        let mut i: usize = 0;
        while i < n
            invariant
                n == self.paths@.len(),
                n == self.data@.len(),
                distinct_paths(self.paths@, self.sep),
                i <= n,
                r@.len() == i,
                forall|k: int|
                    0 <= k < i ==> (#[trigger] r@[k]).0@ == self.paths@[k]@ && r@[k].1@
                        == self.data@[k]@,
            decreases n - i,
        {
            r.push((self.paths[i].clone(), self.data[i].clone()));
            i = i + 1;
        }
        proof {
            let sep = self.sep;
            assert forall|k: PathKey|
                self.files().dom().contains(k) <==> exists|i: int|
                    0 <= i < r@.len() && path_key((#[trigger] r@[i]).0@, sep) == k by {
                lemma_entries_dom(self.paths@, self.data@, sep, k);
                if exists|i: int| 0 <= i < self.paths@.len() && path_key((#[trigger] self.paths@[i])@, sep) == k {
                    let i = choose|i: int|
                        0 <= i < self.paths@.len() && path_key((#[trigger] self.paths@[i])@, sep) == k;
                    assert(r@[i].0@ == self.paths@[i]@);
                }
                if exists|i: int| 0 <= i < r@.len() && path_key((#[trigger] r@[i]).0@, sep) == k {
                    let i = choose|i: int| 0 <= i < r@.len() && path_key((#[trigger] r@[i]).0@, sep) == k;
                    assert(r@[i].0@ == self.paths@[i]@);
                }
            }
            assert forall|i: int| 0 <= i < r@.len() implies self.files()[path_key(
                (#[trigger] r@[i]).0@,
                sep,
            )] == r@[i].1@ by {
                lemma_entries_value(self.paths@, self.data@, sep, i);
            }
            assert forall|i: int, j: int|
                0 <= i < r@.len() && 0 <= j < r@.len() && i != j implies path_key(r@[i].0@, sep)
                != path_key(r@[j].0@, sep) by {
                assert(r@[i].0@ == self.paths@[i]@ && r@[j].0@ == self.paths@[j]@);
            }
        }
        r
    }

    /// Whether `path` has been created as a directory.
    pub fn has_dir(&self, path: &str) -> (r: bool)
        ensures
            r == self.dir_set().contains(path_key(path@, self.sep())),
    {
        let n = self.dirs.len();
        let mut i: usize = 0;
        while i < n
            invariant
                n == self.dirs@.len(),
                i <= n,
                forall|k: int|
                    0 <= k < i ==> path_key((#[trigger] self.dirs@[k])@, self.sep) != path_key(
                        path@,
                        self.sep,
                    ),
            decreases n - i,
        {
            if same_path(self.dirs[i].as_str(), path, self.sep) {
                assert(self.dir_set().contains(path_key(path@, self.sep)));
                return true;
            }
            i = i + 1;
        }
        false
    }
}

impl Default for InMemoryFs {
    fn default() -> (r: Self)
        ensures
            r.files() == Map::<PathKey, Seq<char>>::empty(),
            r.dir_set() == Set::<PathKey>::empty(),
            r.calls() == Seq::<FsCall>::empty(),
            platform_separator(r.sep()),
    {
        Self::new()
    }
}

impl FileSystem for InMemoryFs {
    closed spec fn sep(&self) -> char {
        self.sep
    }

    closed spec fn files(&self) -> Map<PathKey, Seq<char>> {
        entries_map(self.paths@, self.data@, self.sep)
    }

    /// Creating a directory in memory makes no path exist.
    open spec fn made_by_create_dir(&self, path: Seq<char>) -> Map<PathKey, Seq<char>> {
        Map::empty()
    }

    open spec fn dirs(&self) -> Set<PathKey> {
        self.dir_set()
    }

    closed spec fn calls(&self) -> Seq<FsCall> {
        self.log@
    }

    /// Creating directories and writing files in memory always succeeds.
    open spec fn accepts(&self) -> bool {
        true
    }

    fn separator(&self) -> (c: char) {
        proof {
            use_type_invariant(self);
        }
        self.sep
    }

    fn path_exists(&self, path: &str) -> (r: bool) {
        proof {
            lemma_entries_dom(self.paths@, self.data@, self.sep, path_key(path@, self.sep));
        }
        match self.find(path) {
            Some(i) => {
                assert(path_key(self.paths@[i as int]@, self.sep) == path_key(path@, self.sep));
                true
            },
            None => false,
        }
    }

    fn create_dir_all(&mut self, path: &str) -> (r: Result<(), CliError>)
        ensures
            r is Ok,
            final(self).files() == old(self).files(),
    {
        proof {
            use_type_invariant(&*self);
        }
        let d = String::from_str(path);
        let mut taken = InMemoryFs::with_separator(self.sep);
        std::mem::swap(&mut taken, self);
        let InMemoryFs { paths, data, mut dirs, log, sep } = taken;
        dirs.push(d);
        let log = Ghost(log@.push(FsCall::CreateDir(path@, Ok(()))));
        *self = InMemoryFs { paths, data, dirs, log, sep };
        proof {
            let k = path_key(path@, sep);
            assert(self.dir_set() =~= old(self).dir_set().insert(k)) by {
                assert(path_key(self.dirs@[self.dirs@.len() - 1]@, sep) == k);
                assert forall|x: PathKey| old(self).dir_set().contains(x) implies self.dir_set().contains(x) by {
                    let i = choose|i: int|
                        0 <= i < old(self).dirs@.len() && path_key((#[trigger] old(self).dirs@[i])@, sep) == x;
                    assert(self.dirs@[i] == old(self).dirs@[i]);
                }
                assert forall|x: PathKey| self.dir_set().contains(x) implies old(self).dir_set().insert(
                    k,
                ).contains(x) by {
                    let i = choose|i: int|
                        0 <= i < self.dirs@.len() && path_key((#[trigger] self.dirs@[i])@, sep) == x;
                    if i < old(self).dirs@.len() {
                        assert(self.dirs@[i] == old(self).dirs@[i]);
                    }
                }
            }
            assert(Map::<PathKey, Seq<char>>::empty().union_prefer_right(old(self).files()) =~= old(
                self,
            ).files());
        }
        Ok(())
    }

    fn write(&mut self, path: &str, contents: &str) -> (r: Result<(), CliError>)
        ensures
            r is Ok,
    {
        self.put(path, contents);
        self.record(Ghost(FsCall::Write(path@, contents@, Ok(()))));
        Ok(())
    }
}

} // verus!
