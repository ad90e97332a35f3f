//! Orchestration: render every artifact, enforce an all-or-nothing collision
//! check, then write. The decisions are a `RunMachine` that asks for each
//! look-up and write in turn; `drive` and `run` perform them against any
//! `FileSystem`.

use vstd::prelude::*;

use crate::domain::http_method::{upper_of, HttpMethod};
use crate::domain::request::GenerationRequest;
use crate::error::{is_file_exists, CliError};
use crate::generation::artifact::FileArtifact;
use crate::generation::handler::handler_file_name;
use crate::generation::plan::{build_artifacts, planned_content, planned_path};
use crate::io::writer::{call_result, FileSystem, FsCall};
use crate::paths::{is_plain_name, lemma_join_same_path, path_key, PathKey};
use crate::text::{is_separator, join_path, join_path_str, platform_separator};

verus! {

/// Outcome of a run: the paths that were (or would be) created.
pub struct RunReport {
    pub created: Vec<String>,
    pub dry_run: bool,
}

/// Number of files produced for the methods `ms`: one handler per method, the
/// controller and the route.
pub open spec fn file_count(ms: Seq<HttpMethod>) -> int {
    ms.len() + 2int
}

/// Where the `i`-th file for the methods `ms` goes under the directory `dir`,
/// on a platform whose main path separator is `sep`.
pub open spec fn target_path(dir: Seq<char>, sep: char, ms: Seq<HttpMethod>, i: int) -> Seq<char> {
    join_path(dir, sep, planned_path(ms, i))
}

/// Every target path for the methods `ms` under `dir`, in order.
pub open spec fn planned_targets(dir: Seq<char>, sep: char, ms: Seq<HttpMethod>) -> Seq<Seq<char>> {
    Seq::new(file_count(ms) as nat, |i: int| target_path(dir, sep, ms, i))
}

/// The contents of every file for the methods `ms` and the PascalCase name
/// `name`, in order.
pub open spec fn planned_contents(ms: Seq<HttpMethod>, name: Seq<char>) -> Seq<Seq<char>> {
    Seq::new(file_count(ms) as nat, |i: int| planned_content(ms, name, i))
}

/// What a run for the directory `dir`, the methods `ms`, the PascalCase name
/// `name` and the flags `force` and `dry_run` gives, from the file system
/// `before` to `after`: the outcome of its plan (see [`plan_outcome`]), with
/// the collision check on unless `force` or `dry_run`, and the paths joined
/// with the file system's separator.
pub open spec fn run_outcome<F: FileSystem>(
    dir: Seq<char>,
    ms: Seq<HttpMethod>,
    name: Seq<char>,
    force: bool,
    dry_run: bool,
    before: F,
    after: F,
    r: Result<RunReport, CliError>,
) -> bool {
    plan_outcome(
        dir,
        planned_targets(dir, before.sep(), ms),
        planned_contents(ms, name),
        !force && !dry_run,
        dry_run,
        before,
        after,
        r,
    )
}

proof fn lemma_handler_names_distinct(a: HttpMethod, b: HttpMethod)
    ensures
        handler_file_name(a) == handler_file_name(b) ==> a == b,
        handler_file_name(a) != "controller.ts"@,
        handler_file_name(a) != "route.ts"@,
{
    reveal_strlit("GET");
    reveal_strlit("POST");
    reveal_strlit("PUT");
    reveal_strlit("DELETE");
    reveal_strlit(".ts");
    reveal_strlit("controller.ts");
    reveal_strlit("route.ts");
    assert(handler_file_name(a).len() == upper_of(a).len() + 3);
    assert(handler_file_name(b).len() == upper_of(b).len() + 3);
    assert(handler_file_name(a)[0] == upper_of(a)[0]);
    assert(handler_file_name(b)[0] == upper_of(b)[0]);
}

/// Every planned file name is a single path component.
proof fn lemma_planned_path_plain(ms: Seq<HttpMethod>, i: int, sep: char)
    requires
        0 <= i < file_count(ms),
        platform_separator(sep),
    ensures
        is_plain_name(planned_path(ms, i), sep),
{
    reveal_strlit("GET");
    reveal_strlit("POST");
    reveal_strlit("PUT");
    reveal_strlit("DELETE");
    reveal_strlit(".ts");
    reveal_strlit("controller.ts");
    reveal_strlit("route.ts");
    let p = planned_path(ms, i);
    assert(seq!['.'].len() == 1);
    if i < ms.len() {
        let m = ms[i];
        assert(p == upper_of(m) + ".ts"@);
        assert(p.len() == upper_of(m).len() + 3);
        assert forall|k: int| 0 <= k < p.len() implies !is_separator(#[trigger] p[k], sep) by {
            if k < upper_of(m).len() {
                assert(p[k] == upper_of(m)[k]);
            } else {
                assert(p[k] == ".ts"@[k - upper_of(m).len()]);
            }
        }
    }
}

/// Two target files of a request at the same path have the same contents, so
/// the order of the writes does not matter.
pub proof fn lemma_same_target_same_content(
    dir: Seq<char>,
    sep: char,
    ms: Seq<HttpMethod>,
    name: Seq<char>,
    i: int,
    j: int,
)
    requires
        platform_separator(sep),
        0 <= i < file_count(ms),
        0 <= j < file_count(ms),
        path_key(target_path(dir, sep, ms, i), sep) == path_key(target_path(dir, sep, ms, j), sep),
    ensures
        planned_content(ms, name, i) == planned_content(ms, name, j),
{
    reveal_strlit("controller.ts");
    reveal_strlit("route.ts");
    lemma_planned_path_plain(ms, i, sep);
    lemma_planned_path_plain(ms, j, sep);
    lemma_join_same_path(dir, sep, planned_path(ms, i), planned_path(ms, j));
    if i < ms.len() {
        lemma_handler_names_distinct(ms[i], ms[i]);
        if j < ms.len() {
            lemma_handler_names_distinct(ms[i], ms[j]);
        }
    } else if j < ms.len() {
        lemma_handler_names_distinct(ms[j], ms[j]);
    }
}

/// The keys of `targets` under the separator `sep`.
pub open spec fn target_keys(targets: Seq<Seq<char>>, sep: char) -> Seq<PathKey> {
    targets.map_values(|t: Seq<char>| path_key(t, sep))
}

/// Targets that are the same path have the same contents, so the order of
/// the writes does not matter.
pub open spec fn consistent_targets(targets: Seq<Seq<char>>, contents: Seq<Seq<char>>, sep: char) -> bool {
    &&& targets.len() == contents.len()
    &&& forall|i: int, j: int|
        0 <= i < targets.len() && 0 <= j < targets.len() && path_key(#[trigger] targets[i], sep)
            == path_key(#[trigger] targets[j], sep) ==> contents[i] == contents[j]
}

/// Some target already exists in `files`, paths compared under `sep`.
pub open spec fn some_target_exists(
    targets: Seq<Seq<char>>,
    files: Map<PathKey, Seq<char>>,
    sep: char,
) -> bool {
    exists|i: int| 0 <= i < targets.len() && files.dom().contains(path_key(#[trigger] targets[i], sep))
}

/// `m` with each of `keys` set to the matching entry of `contents`, in order.
pub open spec fn written(m: Map<PathKey, Seq<char>>, keys: Seq<PathKey>, contents: Seq<Seq<char>>) -> Map<
    PathKey,
    Seq<char>,
>
    decreases keys.len(),
{
    if keys.len() == 0 {
        m
    } else {
        written(m, keys.drop_last(), contents).insert(keys.last(), contents[keys.len() - 1])
    }
}

/// After writing keys whose equal entries carry equal contents, each key
/// holds its contents.
pub proof fn lemma_written(m: Map<PathKey, Seq<char>>, keys: Seq<PathKey>, contents: Seq<Seq<char>>)
    requires
        keys.len() <= contents.len(),
        forall|i: int, j: int|
            0 <= i < keys.len() && 0 <= j < keys.len() && #[trigger] keys[i] == #[trigger] keys[j]
                ==> contents[i] == contents[j],
    ensures
        forall|i: int|
            0 <= i < keys.len() ==> written(m, keys, contents).dom().contains(#[trigger] keys[i])
                && written(m, keys, contents)[keys[i]] == contents[i],
    decreases keys.len(),
{
    if keys.len() > 0 {
        let n = keys.len() - 1;
        let ks = keys.drop_last();
        assert forall|i: int, j: int|
            0 <= i < ks.len() && 0 <= j < ks.len() && #[trigger] ks[i] == #[trigger] ks[j] implies contents[i]
            == contents[j] by {
            assert(ks[i] == keys[i] && ks[j] == keys[j]);
        }
        lemma_written(m, ks, contents);
        assert forall|i: int| 0 <= i < keys.len() implies written(m, keys, contents).dom().contains(
            #[trigger] keys[i],
        ) && written(m, keys, contents)[keys[i]] == contents[i] by {
            if i < n && keys[i] != keys[n] {
                assert(ks[i] == keys[i]);
            }
        }
    }
}

/// A key that is none of `keys` is left as it was by writing them.
proof fn lemma_written_other(m: Map<PathKey, Seq<char>>, keys: Seq<PathKey>, contents: Seq<Seq<char>>, k: PathKey)
    requires
        forall|i: int| 0 <= i < keys.len() ==> #[trigger] keys[i] != k,
    ensures
        written(m, keys, contents).dom().contains(k) == m.dom().contains(k),
        m.dom().contains(k) ==> written(m, keys, contents)[k] == m[k],
    decreases keys.len(),
{
    if keys.len() > 0 {
        let ks = keys.drop_last();
        assert(keys[keys.len() - 1] != k);
        assert forall|i: int| 0 <= i < ks.len() implies #[trigger] ks[i] != k by {
            assert(ks[i] == keys[i]);
        }
        lemma_written_other(m, ks, contents, k);
    }
}

/// `calls` are the changes a real run makes once its checks have passed:
/// create `dir`, then write each target with its contents, in order,
/// stopping right after the first call that fails.
pub open spec fn write_calls(
    dir: Seq<char>,
    targets: Seq<Seq<char>>,
    contents: Seq<Seq<char>>,
    calls: Seq<FsCall>,
) -> bool {
    &&& 1 <= calls.len() <= targets.len() + 1
    &&& calls[0] == FsCall::CreateDir(dir, call_result(calls[0]))
    &&& forall|i: int|
        1 <= i < calls.len() ==> #[trigger] calls[i] == FsCall::Write(
            targets[i - 1],
            contents[i - 1],
            call_result(calls[i]),
        )
    &&& forall|i: int| 0 <= i < calls.len() - 1 ==> call_result(#[trigger] calls[i]) is Ok
    &&& call_result(calls.last()) is Ok ==> calls.len() == targets.len() + 1
}

/// The calls made on the file system between `before` and `after`.
pub open spec fn new_calls<F: FileSystem>(before: F, after: F) -> Seq<FsCall> {
    after.calls().skip(before.calls().len() as int)
}

/// What running the plan `targets` / `contents` into the directory `dir`
/// gives, with the collision check on when `check`, from the file system
/// `before` to `after` (paths compared under the file system's separator,
/// which stays as it was):
/// - on success, the report lists every target, in order, and the mode;
/// - a dry run succeeds and leaves the file system untouched;
/// - with the check on, when any target exists, the run fails with
///   `FileExists` for the first such target and leaves the file system
///   untouched;
/// - otherwise a real run creates `dir`, then writes the targets in order,
///   stopping at the first call that fails; it fails with exactly that
///   call's error, and succeeds when every call did, which is sure when the
///   file system `accepts` them;
/// - after a successful real run the files are exactly those that creating
///   `dir` left, with each target written in order (so every target holds
///   its contents and every other file is as it was), and `dir` is among the
///   directories.
pub open spec fn plan_outcome<F: FileSystem>(
    dir: Seq<char>,
    targets: Seq<Seq<char>>,
    contents: Seq<Seq<char>>,
    check: bool,
    dry_run: bool,
    before: F,
    after: F,
    r: Result<RunReport, CliError>,
) -> bool {
    let sep = before.sep();
    &&& after.sep() == sep
    &&& r matches Ok(rep) ==> rep.dry_run == dry_run && lists_targets(rep, targets)
    &&& dry_run ==> r is Ok && after == before
    &&& !dry_run && check && some_target_exists(targets, before.files(), sep) ==> {
        &&& after == before
        &&& r matches Err(e) && exists|k: int|
            {
                &&& 0 <= k < targets.len()
                &&& before.files().dom().contains(path_key(targets[k], sep))
                &&& forall|j: int|
                    0 <= j < k ==> !before.files().dom().contains(path_key(#[trigger] targets[j], sep))
                &&& is_file_exists(e, targets[k])
            }
    }
    &&& !dry_run && !(check && some_target_exists(targets, before.files(), sep)) ==> {
        &&& before.calls().len() <= after.calls().len()
        &&& after.calls().take(before.calls().len() as int) == before.calls()
        &&& write_calls(dir, targets, contents, new_calls(before, after))
        &&& call_result(new_calls(before, after).last()) matches Err(e) ==> r == Err::<RunReport, CliError>(e)
        &&& call_result(new_calls(before, after).last()) is Ok ==> r is Ok
        &&& before.accepts() ==> r is Ok
    }
    &&& !dry_run && r is Ok ==> {
        &&& after.files() == written(
            before.made_by_create_dir(dir).union_prefer_right(before.files()),
            target_keys(targets, sep),
            contents,
        )
        &&& forall|i: int|
            0 <= i < targets.len() ==> after.files().dom().contains(path_key(#[trigger] targets[i], sep))
                && after.files()[path_key(targets[i], sep)] == contents[i]
        &&& forall|k: PathKey|
            #![trigger before.files().dom().contains(k)]
            before.files().dom().contains(k) && (forall|i: int|
                0 <= i < targets.len() ==> path_key(#[trigger] targets[i], sep) != k)
                ==> after.files().dom().contains(k) && after.files()[k] == before.files()[k]
        &&& after.dirs() == before.dirs().insert(path_key(dir, sep))
    }
}

/// The calls of a real run whose directory was created and whose first `w`
/// writes went through.
spec fn ok_calls(dir: Seq<char>, targets: Seq<Seq<char>>, contents: Seq<Seq<char>>, w: int) -> Seq<FsCall> {
    seq![FsCall::CreateDir(dir, Ok(()))] + Seq::new(
        w as nat,
        |j: int| FsCall::Write(targets[j], contents[j], Ok(())),
    )
}

/// Where a run stands.
#[derive(Debug, Clone, Copy, PartialEq, Eq, Structural)]
pub enum Phase {
    /// Waiting to learn whether the next target exists.
    Checking,
    /// Waiting for the target directory to be created.
    CreatingDir,
    /// Waiting for the next target to be written.
    Writing,
    /// Finished.
    Over,
}

/// What a run asks its driver to do next.
pub enum RunStep {
    /// Find out whether something exists at this path; answer with
    /// [`RunMachine::on_exists`].
    CheckExists(String),
    /// Create this directory and its parents; answer with [`RunMachine::on_done`].
    CreateDir(String),
    /// Write these contents to this path; answer with [`RunMachine::on_done`].
    Write(String, String),
    /// The run is over, with this outcome.
    Finished(Result<RunReport, CliError>),
}

/// Where a run goes when it may go on checking from the `i`-th of `n`
/// targets: check the next one if checks are due, else create the directory,
/// or finish at once on a dry run.
pub open spec fn resume_checks(i: int, n: int, check: bool, dry_run: bool) -> (Phase, int) {
    if check && i < n {
        (Phase::Checking, i)
    } else if dry_run {
        (Phase::Over, i)
    } else {
        (Phase::CreatingDir, i)
    }
}

/// Where a run goes when it may go on writing from the `i`-th of `n`
/// targets.
pub open spec fn resume_writes(i: int, n: int) -> (Phase, int) {
    if i < n {
        (Phase::Writing, i)
    } else {
        (Phase::Over, i)
    }
}

/// `rep` lists the paths `targets`, in order.
pub open spec fn lists_targets(rep: RunReport, targets: Seq<Seq<char>>) -> bool {
    &&& rep.created@.len() == targets.len()
    &&& forall|i: int| 0 <= i < targets.len() ==> (#[trigger] rep.created@[i])@ == targets[i]
}

/// The decisions of a run, apart from the file system it runs against: the
/// caller performs each [`RunStep`] and hands back what came of it.
///
/// The targets are checked in order (unless overwriting or on a dry run) and
/// the first one that exists ends the run with `FileExists`; only when none
/// does is the directory created and every target written, in order. A dry
/// run finishes at once, asking for nothing.
pub struct RunMachine {
    paths: Vec<String>,
    contents: Vec<String>,
    dir: String,
    check: bool,
    dry_run: bool,
    phase: Phase,
    next: usize,
    sep: Ghost<char>,
}

impl RunMachine {
    #[verifier::type_invariant]
    spec fn well_formed(self) -> bool {
        &&& self.paths@.len() == self.contents@.len()
        &&& self.check ==> !self.dry_run
        &&& self.phase == Phase::Checking ==> self.check && self.next < self.paths@.len()
        &&& self.phase == Phase::CreatingDir ==> !self.dry_run
        &&& self.phase == Phase::Writing ==> !self.dry_run && self.next < self.paths@.len()
    }

    /// The target paths, in order.
    pub closed spec fn targets(&self) -> Seq<Seq<char>> {
        self.paths@.map_values(|p: String| p@)
    }

    /// The rendered contents of the targets, in order.
    pub closed spec fn contents(&self) -> Seq<Seq<char>> {
        self.contents@.map_values(|c: String| c@)
    }

    /// The directory the targets go into.
    pub closed spec fn dir(&self) -> Seq<char> {
        self.dir@
    }

    /// Whether existing targets are looked for before writing.
    pub closed spec fn checks(&self) -> bool {
        self.check
    }

    /// Whether this is a dry run.
    pub closed spec fn dry(&self) -> bool {
        self.dry_run
    }

    /// The main path separator the targets were joined with.
    pub closed spec fn separator(&self) -> char {
        self.sep@
    }

    /// Where the run stands.
    pub closed spec fn phase(&self) -> Phase {
        self.phase
    }

    /// Index of the target being checked or written.
    pub closed spec fn next(&self) -> int {
        self.next as int
    }

    /// `step` is what the run asks for in its present phase (for `Over`, only
    /// that it is finished).
    pub open spec fn asks(&self, step: RunStep) -> bool {
        match self.phase() {
            Phase::Checking => step matches RunStep::CheckExists(p) && p@ == self.targets()[self.next()],
            Phase::CreatingDir => step matches RunStep::CreateDir(d) && d@ == self.dir(),
            Phase::Writing => step matches RunStep::Write(p, c) && p@ == self.targets()[self.next()]
                && c@ == self.contents()[self.next()],
            Phase::Over => step is Finished,
        }
    }

    /// `step`, on reaching `Over` without failing, reports every target.
    pub open spec fn finishes_well(&self, step: RunStep) -> bool {
        self.phase() == Phase::Over ==> (step matches RunStep::Finished(Ok(rep)) && rep.dry_run
            == self.dry() && lists_targets(rep, self.targets()))
    }

    /// The plan of `self` is that of `other`.
    pub open spec fn same_plan(&self, other: &RunMachine) -> bool {
        &&& self.targets() == other.targets()
        &&& self.contents() == other.contents()
        &&& self.dir() == other.dir()
        &&& self.checks() == other.checks()
        &&& self.dry() == other.dry()
        &&& self.separator() == other.separator()
    }

    /// `self` and `step` are a run just started for the directory `dir`, the
    /// main separator `sep`, the methods `ms`, the PascalCase name `name` and
    /// the flags `force` and `dry_run`: every file rendered, and the first
    /// step asked for.
    pub open spec fn started(
        &self,
        step: RunStep,
        dir: Seq<char>,
        sep: char,
        ms: Seq<HttpMethod>,
        name: Seq<char>,
        force: bool,
        dry_run: bool,
    ) -> bool {
        &&& self.separator() == sep
        &&& platform_separator(sep)
        &&& self.targets() == planned_targets(dir, sep, ms)
        &&& self.contents() == planned_contents(ms, name)
        &&& self.dir() == dir
        &&& self.checks() == (!force && !dry_run)
        &&& self.dry() == dry_run
        &&& self.fresh(step)
    }

    /// `self` and `step` are a run at its first step, over consistent targets.
    pub open spec fn fresh(&self, step: RunStep) -> bool {
        &&& (self.phase(), self.next()) == resume_checks(
            0,
            self.targets().len() as int,
            self.checks(),
            self.dry(),
        )
        &&& self.checks() ==> !self.dry()
        &&& platform_separator(self.separator())
        &&& consistent_targets(self.targets(), self.contents(), self.separator())
        &&& self.asks(step)
        &&& self.finishes_well(step)
    }

    /// The report of a run that went through: every target path.
    fn report(&self) -> (r: RunReport)
        ensures
            r.dry_run == self.dry(),
            lists_targets(r, self.targets()),
    {
        let n = self.paths.len();
        let mut created: Vec<String> = Vec::new();
        let mut i: usize = 0;
        while i < n
            invariant
                n == self.paths@.len(),
                i <= n,
                created@.len() == i,
                forall|k: int| 0 <= k < i ==> (#[trigger] created@[k])@ == self.paths@[k]@,
            decreases n - i,
        {
            created.push(self.paths[i].clone());
            i = i + 1;
        }
        RunReport { created, dry_run: self.dry_run }
    }

    /// What the run asks for in its present phase.
    fn current_step(&self) -> (r: RunStep)
        ensures
            self.asks(r),
            self.finishes_well(r),
    {
        proof {
            use_type_invariant(self);
        }
        match self.phase {
            Phase::Checking => RunStep::CheckExists(self.paths[self.next].clone()),
            Phase::CreatingDir => RunStep::CreateDir(self.dir.clone()),
            Phase::Writing => RunStep::Write(
                self.paths[self.next].clone(),
                self.contents[self.next].clone(),
            ),
            Phase::Over => RunStep::Finished(Ok(self.report())),
        }
    }

    /// Move to the phase and index `(phase, next)`.
    fn go(&mut self, phase: Phase, next: usize)
        requires
            phase == Phase::Checking ==> old(self).checks() && next < old(self).targets().len(),
            phase == Phase::CreatingDir ==> !old(self).dry(),
            phase == Phase::Writing ==> !old(self).dry() && next < old(self).targets().len(),
        ensures
            final(self).same_plan(old(self)),
            final(self).phase() == phase,
            final(self).next() == next,
    {
        proof {
            use_type_invariant(&*self);
        }
        let mut taken = RunMachine {
            paths: Vec::new(),
            contents: Vec::new(),
            dir: String::new(),
            check: false,
            dry_run: false,
            phase: Phase::Over,
            next: 0,
            sep: Ghost('/'),
        };
        std::mem::swap(&mut taken, self);
        let RunMachine { paths, contents, dir, check, dry_run, sep, .. } = taken;
        *self = RunMachine { paths, contents, dir, check, dry_run, phase, next, sep };
        proof {
            assert(self.targets() =~= old(self).targets());
            assert(self.contents() =~= old(self).contents());
        }
    }

    /// Go on checking from the `i`-th target.
    fn resume_checking(&mut self, i: usize) -> (r: RunStep)
        requires
            i <= old(self).targets().len(),
        ensures
            final(self).same_plan(old(self)),
            (final(self).phase(), final(self).next()) == resume_checks(
                i as int,
                old(self).targets().len() as int,
                old(self).checks(),
                old(self).dry(),
            ),
            final(self).asks(r),
            final(self).finishes_well(r),
    {
        proof {
            use_type_invariant(&*self);
        }
        if self.check && i < self.paths.len() {
            self.go(Phase::Checking, i);
        } else if self.dry_run {
            self.go(Phase::Over, i);
        } else {
            self.go(Phase::CreatingDir, i);
        }
        self.current_step()
    }

    /// Go on writing from the `i`-th target.
    fn resume_writing(&mut self, i: usize) -> (r: RunStep)
        requires
            i <= old(self).targets().len(),
            !old(self).dry(),
        ensures
            final(self).same_plan(old(self)),
            (final(self).phase(), final(self).next()) == resume_writes(
                i as int,
                old(self).targets().len() as int,
            ),
            final(self).asks(r),
            final(self).finishes_well(r),
    {
        proof {
            use_type_invariant(&*self);
        }
        if i < self.paths.len() {
            self.go(Phase::Writing, i);
        } else {
            self.go(Phase::Over, i);
        }
        self.current_step()
    }

    /// Render every file of `req`, its paths joined with the main separator
    /// `sep`, and start a run: the first step is to check the first target
    /// (unless `req.force` or `dry_run`), else to create the directory, else
    /// (dry run) the finished report.
    pub fn start(req: &GenerationRequest, dry_run: bool, sep: char) -> (r: (RunMachine, RunStep))
        requires
            platform_separator(sep),
        ensures
            r.0.started(r.1, req.target_dir@, sep, req.methods@, req.name@, req.force, dry_run),
    {
        let ghost dir = req.target_dir@;
        let ghost ms = req.methods@;
        let artifacts = build_artifacts(req);
        let count = artifacts.len();
        // Render everything up front so a render error aborts before any write.
        let mut paths: Vec<String> = Vec::new();
        let mut contents: Vec<String> = Vec::new();
        let mut i: usize = 0;
        while i < count
            invariant
                dir == req.target_dir@,
                ms == req.methods@,
                count == artifacts@.len(),
                count == file_count(ms),
                forall|k: int|
                    0 <= k < artifacts@.len() ==> (#[trigger] artifacts@[k]).path_of() == planned_path(ms, k)
                        && artifacts@[k].content_for(req.name@) == planned_content(ms, req.name@, k),
                i <= count,
                paths@.len() == i,
                contents@.len() == i,
                platform_separator(sep),
                forall|k: int| 0 <= k < i ==> (#[trigger] paths@[k])@ == target_path(dir, sep, ms, k),
                forall|k: int| 0 <= k < i ==> (#[trigger] contents@[k])@ == planned_content(ms, req.name@, k),
            decreases count - i,
        {
            let artifact = &artifacts[i];
            let path = join_path_str(req.target_dir.as_str(), sep, artifact.relative_path().as_str());
            let rendered = match artifact.render(req) {
                Ok(s) => s,
                Err(_) => {
                    // Rendering never fails: every template is embedded.
                    proof {
                        assert(false);
                    }
                    String::new()
                },
            };
            paths.push(path);
            contents.push(rendered);
            i = i + 1;
        }
        let check = !req.force && !dry_run;
        let mut m = RunMachine {
            paths,
            contents,
            dir: req.target_dir.clone(),
            check,
            dry_run,
            phase: Phase::Over,
            next: 0,
            sep: Ghost(sep),
        };
        let step = m.resume_checking(0);
        proof {
            assert(m.targets() =~= planned_targets(dir, sep, ms));
            assert(m.contents() =~= planned_contents(ms, req.name@));
            assert forall|a: int, b: int|
                0 <= a < m.targets().len() && 0 <= b < m.targets().len() && path_key(
                    #[trigger] m.targets()[a],
                    sep,
                ) == path_key(#[trigger] m.targets()[b], sep) implies m.contents()[a]
                == m.contents()[b] by {
                lemma_same_target_same_content(dir, sep, ms, req.name@, a, b);
            }
        }
        (m, step)
    }

    /// Hand back whether the target being checked exists: if it does, the
    /// run ends with `FileExists` for it; if not, it goes on.
    pub fn on_exists(&mut self, exists: bool) -> (r: RunStep)
        requires
            old(self).phase() == Phase::Checking,
        ensures
            final(self).same_plan(old(self)),
            exists ==> final(self).phase() == Phase::Over && (r matches RunStep::Finished(Err(e))
                && is_file_exists(e, old(self).targets()[old(self).next()])),
            !exists ==> (final(self).phase(), final(self).next()) == resume_checks(
                old(self).next() + 1,
                old(self).targets().len() as int,
                old(self).checks(),
                old(self).dry(),
            ) && final(self).asks(r) && final(self).finishes_well(r),
    {
        proof {
            use_type_invariant(&*self);
        }
        let i = self.next;
        assert(i < self.paths.len());
        if exists {
            let path = self.paths[i].clone();
            self.go(Phase::Over, i);
            RunStep::Finished(Err(CliError::FileExists(path)))
        } else {
            self.resume_checking(i + 1)
        }
    }

    /// Hand back how creating the directory or writing the target went: a
    /// failure ends the run with that error; otherwise it goes on.
    pub fn on_done(&mut self, result: Result<(), CliError>) -> (r: RunStep)
        requires
            old(self).phase() == Phase::CreatingDir || old(self).phase() == Phase::Writing,
        ensures
            final(self).same_plan(old(self)),
            result matches Err(e) ==> final(self).phase() == Phase::Over && r == RunStep::Finished(
                Err(e),
            ),
            result is Ok ==> (final(self).phase(), final(self).next()) == (if old(self).phase()
                == Phase::CreatingDir {
                resume_writes(0, old(self).targets().len() as int)
            } else {
                resume_writes(old(self).next() + 1, old(self).targets().len() as int)
            }) && final(self).asks(r) && final(self).finishes_well(r),
    {
        proof {
            use_type_invariant(&*self);
        }
        let i = self.next;
        assert(i < self.paths.len() || self.phase == Phase::CreatingDir);
        match result {
            Err(e) => {
                self.go(Phase::Over, i);
                RunStep::Finished(Err(e))
            },
            Ok(()) => {
                if self.phase == Phase::CreatingDir {
                    self.resume_writing(0)
                } else {
                    self.resume_writing(i + 1)
                }
            },
        }
    }
}

/// How many steps a run in the state of `m` can still take.
pub open spec fn steps_left(m: &RunMachine) -> int {
    match m.phase() {
        Phase::Checking => 2 * m.targets().len() + 2 - m.next(),
        Phase::CreatingDir => m.targets().len() + 1int,
        Phase::Writing => m.targets().len() - m.next(),
        Phase::Over => 0,
    }
}

/// Run a freshly started machine against `fs`, performing each step it asks
/// for, until it finishes. The machine's paths must have been joined with
/// the file system's separator.
pub fn drive<F: FileSystem>(machine: RunMachine, first: RunStep, fs: &mut F) -> (r: Result<
    RunReport,
    CliError,
>)
    requires
        machine.fresh(first),
        machine.separator() == old(fs).sep(),
    ensures
        plan_outcome(
            machine.dir(),
            machine.targets(),
            machine.contents(),
            machine.checks(),
            machine.dry(),
            *old(fs),
            *final(fs),
            r,
        ),
{
    let ghost dir = machine.dir();
    let ghost targets = machine.targets();
    let ghost contents = machine.contents();
    let ghost check = machine.checks();
    let ghost dry_run = machine.dry();
    let ghost sep = fs.sep();
    let ghost before = fs.files();
    let ghost made = fs.made_by_create_dir(dir).union_prefer_right(fs.files());
    let ghost keys = target_keys(targets, sep);
    let ghost n = targets.len() as int;
    let mut m = machine;
    let mut step = first;
    loop
        invariant
            dir == machine.dir(),
            targets == machine.targets(),
            contents == machine.contents(),
            check == machine.checks(),
            dry_run == machine.dry(),
            sep == old(fs).sep(),
            before == old(fs).files(),
            made == old(fs).made_by_create_dir(dir).union_prefer_right(before),
            keys == target_keys(targets, sep),
            n == targets.len(),
            fs.sep() == sep,
            consistent_targets(targets, contents, sep),
            check ==> !dry_run,
            m.dir() == dir,
            m.targets() == targets,
            m.contents() == contents,
            m.checks() == check,
            m.dry() == dry_run,
            m.asks(step),
            m.phase() == Phase::Checking ==> {
                &&& *fs == *old(fs)
                &&& check
                &&& 0 <= m.next() < n
                &&& forall|j: int|
                    0 <= j < m.next() ==> !before.dom().contains(path_key(#[trigger] targets[j], sep))
            },
            m.phase() == Phase::CreatingDir ==> {
                &&& *fs == *old(fs)
                &&& !dry_run
                &&& check ==> !some_target_exists(targets, before, sep)
            },
            m.phase() == Phase::Writing ==> {
                &&& !dry_run
                &&& check ==> !some_target_exists(targets, before, sep)
                &&& 0 <= m.next() < n
                &&& fs.calls() == old(fs).calls() + ok_calls(dir, targets, contents, m.next())
                &&& fs.dirs() == old(fs).dirs().insert(path_key(dir, sep))
                &&& old(fs).accepts() ==> fs.accepts()
                &&& fs.files() == written(made, keys.take(m.next()), contents)
            },
            m.phase() == Phase::Over ==> (step matches RunStep::Finished(out) && plan_outcome(
                dir,
                targets,
                contents,
                check,
                dry_run,
                *old(fs),
                *fs,
                out,
            )),
        decreases steps_left(&m),
    {
        let ghost m0 = m;
        match step {
            RunStep::CheckExists(p) => {
                let exists = fs.path_exists(p.as_str());
                step = m.on_exists(exists);
                proof {
                    if !exists && m.phase() == Phase::CreatingDir && check {
                        assert forall|j: int| 0 <= j < n implies !before.dom().contains(
                            path_key(#[trigger] targets[j], sep),
                        ) by {
                            if j == m0.next() {
                            }
                        }
                    }
                }
            },
            RunStep::CreateDir(d) => {
                let done = fs.create_dir_all(d.as_str());
                proof {
                    let calls = new_calls(*old(fs), *fs);
                    assert(calls =~= seq![FsCall::CreateDir(dir, done)]);
                    assert(fs.calls().take(old(fs).calls().len() as int) =~= old(fs).calls());
                    assert(keys.take(0) =~= Seq::<PathKey>::empty());
                    if done is Ok {
                        assert(done->Ok_0 == ());
                        assert(done == Ok::<(), CliError>(()));
                        assert(ok_calls(dir, targets, contents, 0) =~= seq![FsCall::CreateDir(dir, done)]);
                    }
                }
                step = m.on_done(done);
                proof {
                    if done is Ok && m.phase() == Phase::Over {
                        lemma_run_went_through(made, keys, targets, contents, sep, before);
                        assert(keys.take(0) =~= keys);
                    }
                }
            },
            RunStep::Write(p, c) => {
                let done = fs.write(p.as_str(), c.as_str());
                step = m.on_done(done);
                proof {
                    let w = m0.next();
                    let calls = new_calls(*old(fs), *fs);
                    assert(fs.calls() =~= old(fs).calls() + ok_calls(dir, targets, contents, w).push(
                        FsCall::Write(targets[w], contents[w], done),
                    ));
                    assert(calls =~= ok_calls(dir, targets, contents, w).push(
                        FsCall::Write(targets[w], contents[w], done),
                    ));
                    assert(fs.calls().take(old(fs).calls().len() as int) =~= old(fs).calls());
                    if done is Ok {
                        assert(done->Ok_0 == ());
                        assert(done == Ok::<(), CliError>(()));
                        assert(ok_calls(dir, targets, contents, w).push(
                            FsCall::Write(targets[w], contents[w], done),
                        ) =~= ok_calls(dir, targets, contents, w + 1));
                        assert(keys.take(w + 1).drop_last() =~= keys.take(w));
                        assert(keys[w] == path_key(targets[w], sep));
                        assert(fs.files() == written(made, keys.take(w + 1), contents));
                        if w + 1 == n {
                            assert(keys.take(w + 1) =~= keys);
                            lemma_run_went_through(made, keys, targets, contents, sep, before);
                        }
                    }
                }
            },
            RunStep::Finished(out) => {
                return out;
            },
        }
    }
}

/// After every target of a consistent plan was written over `made`, each
/// target holds its contents and every other file of `before` is as it was.
proof fn lemma_run_went_through(
    made: Map<PathKey, Seq<char>>,
    keys: Seq<PathKey>,
    targets: Seq<Seq<char>>,
    contents: Seq<Seq<char>>,
    sep: char,
    before: Map<PathKey, Seq<char>>,
)
    requires
        keys == target_keys(targets, sep),
        consistent_targets(targets, contents, sep),
        forall|k: PathKey| #[trigger] before.dom().contains(k) ==> made.dom().contains(k) && made[k] == before[k],
    ensures
        forall|i: int|
            0 <= i < targets.len() ==> written(made, keys, contents).dom().contains(
                path_key(#[trigger] targets[i], sep),
            ) && written(made, keys, contents)[path_key(targets[i], sep)] == contents[i],
        forall|k: PathKey|
            #![trigger before.dom().contains(k)]
            before.dom().contains(k) && (forall|i: int|
                0 <= i < targets.len() ==> path_key(#[trigger] targets[i], sep) != k)
                ==> written(made, keys, contents).dom().contains(k) && written(made, keys, contents)[k]
                == before[k],
{
    assert forall|i: int, j: int|
        0 <= i < keys.len() && 0 <= j < keys.len() && #[trigger] keys[i] == #[trigger] keys[j] implies contents[i]
        == contents[j] by {
        assert(keys[i] == path_key(targets[i], sep) && keys[j] == path_key(targets[j], sep));
    }
    lemma_written(made, keys, contents);
    assert forall|i: int| 0 <= i < targets.len() implies written(made, keys, contents).dom().contains(
        path_key(#[trigger] targets[i], sep),
    ) && written(made, keys, contents)[path_key(targets[i], sep)] == contents[i] by {
        assert(keys[i] == path_key(targets[i], sep));
    }
    assert forall|k: PathKey|
        #![trigger before.dom().contains(k)]
        before.dom().contains(k) && (forall|i: int|
            0 <= i < targets.len() ==> path_key(#[trigger] targets[i], sep) != k) implies written(
        made,
        keys,
        contents,
    ).dom().contains(k) && written(made, keys, contents)[k] == before[k] by {
        assert forall|i: int| 0 <= i < keys.len() implies #[trigger] keys[i] != k by {
            assert(keys[i] == path_key(targets[i], sep));
        }
        lemma_written_other(made, keys, contents, k);
    }
}

/// Render every file of `req`, refuse (unless `req.force`) when any target
/// already exists, and write them all, unless `dry_run`, which writes nothing.
/// The paths are joined with the file system's separator.
pub fn run<F: FileSystem>(req: &GenerationRequest, fs: &mut F, dry_run: bool) -> (r: Result<
    RunReport,
    CliError,
>)
    ensures
        run_outcome(
            req.target_dir@,
            req.methods@,
            req.name@,
            req.force,
            dry_run,
            *old(fs),
            *final(fs),
            r,
        ),
{
    let sep = fs.separator();
    let (m, step) = RunMachine::start(req, dry_run, sep);
    let ghost m0 = m;
    let ghost step0 = step;
    let r = drive(m, step, fs);
    proof {
        lemma_plan_outcome_is_run_outcome(
            m0,
            step0,
            req.target_dir@,
            req.methods@,
            req.name@,
            req.force,
            dry_run,
            *old(fs),
            *fs,
            r,
        );
    }
    r
}

/// A run's outcome, stated over its rendered plan, is its outcome over the
/// request it was rendered from.
pub(crate) proof fn lemma_plan_outcome_is_run_outcome<F: FileSystem>(
    machine: RunMachine,
    step: RunStep,
    dir: Seq<char>,
    ms: Seq<HttpMethod>,
    name: Seq<char>,
    force: bool,
    dry_run: bool,
    before: F,
    after: F,
    r: Result<RunReport, CliError>,
)
    requires
        machine.started(step, dir, before.sep(), ms, name, force, dry_run),
        plan_outcome(
            machine.dir(),
            machine.targets(),
            machine.contents(),
            machine.checks(),
            machine.dry(),
            before,
            after,
            r,
        ),
    ensures
        run_outcome(dir, ms, name, force, dry_run, before, after, r),
{
}

/// A run that went through leaves every target in place, so running the same
/// request again without `force` (on the same file system, after any change
/// that deletes nothing) refuses with `FileExists` for the first target and
/// changes nothing: a second run never clobbers what the first one wrote or
/// what was edited since.
pub proof fn lemma_rerun_refuses<F: FileSystem>(
    dir: Seq<char>,
    ms: Seq<HttpMethod>,
    name: Seq<char>,
    before1: F,
    after1: F,
    r1: Result<RunReport, CliError>,
    before2: F,
    after2: F,
    r2: Result<RunReport, CliError>,
)
    requires
        run_outcome(dir, ms, name, false, false, before1, after1, r1),
        r1 is Ok,
        before2.sep() == after1.sep(),
        after1.files().dom().subset_of(before2.files().dom()),
        run_outcome(dir, ms, name, false, false, before2, after2, r2),
    ensures
        after2 == before2,
        r2 matches Err(e) && is_file_exists(e, target_path(dir, before2.sep(), ms, 0)),
{
    let sep = before1.sep();
    let targets = planned_targets(dir, sep, ms);
    assert(targets[0] == target_path(dir, sep, ms, 0));
    assert(after1.files().dom().contains(path_key(targets[0], sep)));
    assert(before2.files().dom().contains(path_key(targets[0], sep)));
    assert(some_target_exists(targets, before2.files(), sep));
    let e = r2->Err_0;
    let k = choose|k: int|
        {
            &&& 0 <= k < targets.len()
            &&& before2.files().dom().contains(path_key(targets[k], sep))
            &&& forall|j: int|
                0 <= j < k ==> !before2.files().dom().contains(path_key(#[trigger] targets[j], sep))
            &&& is_file_exists(e, targets[k])
        };
    if k > 0 {
        assert(!before2.files().dom().contains(path_key(targets[0], sep)));
    }
}

} // verus!
