//! The program's decisions between parsing argv and printing: dispatch a
//! command, run it against a file system, and word the summary.

use vstd::prelude::*;
use vstd::string::StringExecFns;

use crate::cli::args::{resolved_methods, ApiAction, Cli, Command, CreateArgs};
use crate::domain::request::normalized;
use crate::domain::resource_name::{name_accepted, trim, upper_camel_case};
use crate::error::{is_invalid_name, CliError};
use crate::io::writer::FileSystem;
use crate::run::{drive, lemma_plan_outcome_is_run_outcome, run_outcome, RunMachine, RunReport, RunStep};
use crate::text::{
    decimal, decimal_str, ends_with, lemma_occurs_in_middle, occurs_in, platform_separator, starts_with,
};

verus! {

/// What `api create` with `args` gives, from the file system `before` to
/// `after`: an invalid name is refused with nothing touched; otherwise the
/// run of the resolved request.
pub open spec fn create_outcome<F: FileSystem>(
    args: &CreateArgs,
    before: F,
    after: F,
    r: Result<RunReport, CliError>,
) -> bool {
    if name_accepted(args.name@) {
        run_outcome(
            args.location@,
            normalized(resolved_methods(args.get, args.post, args.put, args.delete, args.all)),
            upper_camel_case(trim(args.name@)),
            args.force,
            args.dry_run,
            before,
            after,
            r,
        )
    } else {
        &&& r matches Err(e) && is_invalid_name(e, args.name@)
        &&& after == before
    }
}

/// Start `api create`: build the request and render its files, their paths
/// joined with the main separator `sep`. The machine then asks for the
/// checks and writes that the run needs.
pub fn create_start(args: &CreateArgs, sep: char) -> (r: Result<(RunMachine, RunStep), CliError>)
    requires
        platform_separator(sep),
    ensures
        r is Ok <==> name_accepted(args.name@),
        r matches Err(e) ==> is_invalid_name(e, args.name@),
        r matches Ok(started) ==> started.0.started(
            started.1,
            args.location@,
            sep,
            normalized(resolved_methods(args.get, args.post, args.put, args.delete, args.all)),
            upper_camel_case(trim(args.name@)),
            args.force,
            args.dry_run,
        ),
{
    let request = match args.to_request() {
        Ok(req) => req,
        Err(e) => return Err(e),
    };
    Ok(RunMachine::start(&request, args.dry_run, sep))
}

/// Run `api create` against `fs`: build the request, then render, check and
/// write, with the file system's separator.
pub fn create<F: FileSystem>(args: &CreateArgs, fs: &mut F) -> (r: Result<RunReport, CliError>)
    ensures
        create_outcome(args, *old(fs), *final(fs), r),
{
    let sep = fs.separator();
    match create_start(args, sep) {
        Err(e) => Err(e),
        Ok((m, step)) => {
            let ghost m0 = m;
            let ghost step0 = step;
            let r = drive(m, step, fs);
            proof {
                lemma_plan_outcome_is_run_outcome(
                    m0,
                    step0,
                    args.location@,
                    normalized(resolved_methods(args.get, args.post, args.put, args.delete, args.all)),
                    upper_camel_case(trim(args.name@)),
                    args.force,
                    args.dry_run,
                    *old(fs),
                    *fs,
                    r,
                );
            }
            r
        },
    }
}

/// What the parsed command line starts.
pub enum Start {
    /// Replace this program with its latest release, which the caller does.
    SelfUpdate,
    /// A run of `api create`: the machine and the first step it asks for.
    Run(RunMachine, RunStep),
    /// Nothing was asked for.
    Nothing,
}

/// What running the parsed command line gave.
pub enum Dispatched {
    /// Self-update was asked for; the caller performs it.
    SelfUpdate,
    /// `api create` ran, with this report.
    Ran(RunReport),
    /// Nothing was asked for.
    Nothing,
}

/// The run's result inside `r`, for a command line that ran `api create`.
pub open spec fn ran_result(r: Result<Dispatched, CliError>) -> Result<RunReport, CliError> {
    match r {
        Ok(Dispatched::Ran(rep)) => Ok(rep),
        Err(e) => Err(e),
        Ok(_) => Err(CliError::NoMethods),
    }
}

/// Start the parsed command line, paths joined with the main separator
/// `sep`: `--update` asks for self-update (whatever else is given);
/// otherwise `api create` starts as [`create_start`] does, and no subcommand
/// starts nothing.
pub fn dispatch_start(cli: &Cli, sep: char) -> (r: Result<Start, CliError>)
    requires
        platform_separator(sep),
    ensures
        cli.update ==> r matches Ok(Start::SelfUpdate),
        !cli.update && cli.command is None ==> r matches Ok(Start::Nothing),
        !cli.update ==> match cli.command {
            Some(Command::Api { action: ApiAction::Create(args) }) => {
                &&& r is Ok <==> name_accepted(args.name@)
                &&& r matches Err(e) ==> is_invalid_name(e, args.name@)
                &&& r matches Ok(st) ==> (st matches Start::Run(m, step) && m.started(
                    step,
                    args.location@,
                    sep,
                    normalized(
                        resolved_methods(args.get, args.post, args.put, args.delete, args.all),
                    ),
                    upper_camel_case(trim(args.name@)),
                    args.force,
                    args.dry_run,
                ))
            },
            None => true,
        },
{
    if cli.update {
        return Ok(Start::SelfUpdate);
    }
    match &cli.command {
        None => Ok(Start::Nothing),
        Some(Command::Api { action }) => match action {
            ApiAction::Create(args) => match create_start(args, sep) {
                Ok((m, step)) => Ok(Start::Run(m, step)),
                Err(e) => Err(e),
            },
        },
    }
}

/// Run the parsed command line against `fs`: `--update` asks the caller for
/// self-update and touches nothing; otherwise `api create` runs as
/// [`create`] does, and no subcommand does nothing.
pub fn dispatch<F: FileSystem>(cli: &Cli, fs: &mut F) -> (r: Result<Dispatched, CliError>)
    ensures
        cli.update ==> (r matches Ok(Dispatched::SelfUpdate) && *final(fs) == *old(fs)),
        !cli.update && cli.command is None ==> (r matches Ok(Dispatched::Nothing) && *final(fs)
            == *old(fs)),
        !cli.update ==> match cli.command {
            Some(Command::Api { action: ApiAction::Create(args) }) => {
                &&& r matches Ok(d) ==> d is Ran
                &&& create_outcome(&args, *old(fs), *final(fs), ran_result(r))
            },
            None => true,
        },
{
    if cli.update {
        return Ok(Dispatched::SelfUpdate);
    }
    match &cli.command {
        None => Ok(Dispatched::Nothing),
        Some(Command::Api { action }) => match action {
            ApiAction::Create(args) => match create(args, fs) {
                Ok(rep) => Ok(Dispatched::Ran(rep)),
                Err(e) => Err(e),
            },
        },
    }
}

/// The verb of the summary: what was done, or what would be.
pub open spec fn summary_verb(dry_run: bool) -> Seq<char> {
    if dry_run {
        "would create"@
    } else {
        "created"@
    }
}

/// One line `"<verb>: <path>"` per path.
pub open spec fn summary_lines(paths: Seq<String>, verb: Seq<char>) -> Seq<char>
    decreases paths.len(),
{
    if paths.len() == 0 {
        Seq::<char>::empty()
    } else {
        summary_lines(paths.drop_last(), verb) + verb + ": "@ + paths.last()@ + "\n"@
    }
}

/// The summary printed after a run: one line per path, then the count.
pub open spec fn summary_text(report: &RunReport) -> Seq<char> {
    let verb = summary_verb(report.dry_run);
    summary_lines(report.created@, verb) + decimal(report.created@.len()) + " file(s) "@ + verb
        + ".\n"@
}

/// Lines of two path lists, one after the other, are the lines of the
/// joined list.
proof fn lemma_summary_lines_concat(a: Seq<String>, b: Seq<String>, verb: Seq<char>)
    ensures
        summary_lines(a + b, verb) == summary_lines(a, verb) + summary_lines(b, verb),
    decreases b.len(),
{
    if b.len() == 0 {
        assert(a + b =~= a);
        assert(summary_lines(a, verb) + summary_lines(b, verb) =~= summary_lines(a, verb));
    } else {
        assert((a + b).drop_last() =~= a + b.drop_last());
        lemma_summary_lines_concat(a, b.drop_last(), verb);
        assert((a + b).last() == b.last());
    }
}

/// The summary names every path with the same verb as its closing count:
/// on a dry run each line reads `would create: <path>` and the last
/// `<n> file(s) would create.`, otherwise `created: <path>` and
/// `<n> file(s) created.`; the first line names the first path.
pub proof fn lemma_summary_says_one_verb(report: &RunReport)
    ensures
        ({
            let verb = if report.dry_run {
                "would create"@
            } else {
                "created"@
            };
            &&& forall|i: int|
                0 <= i < report.created@.len() ==> occurs_in(
                    summary_text(report),
                    verb + ": "@ + (#[trigger] report.created@[i])@ + "\n"@,
                )
            &&& report.created@.len() > 0 ==> starts_with(
                summary_text(report),
                verb + ": "@ + report.created@[0]@ + "\n"@,
            )
            &&& ends_with(
                summary_text(report),
                decimal(report.created@.len()) + " file(s) "@ + verb + ".\n"@,
            )
        }),
{
    let verb = if report.dry_run {
        "would create"@
    } else {
        "created"@
    };
    let ps = report.created@;
    let count = decimal(ps.len()) + " file(s) "@ + verb + ".\n"@;
    assert(summary_verb(report.dry_run) == verb);
    let t = summary_text(report);
    assert(t =~= summary_lines(ps, verb) + count);
    assert(t.skip(t.len() - count.len()) =~= count);
    assert forall|i: int| 0 <= i < ps.len() implies occurs_in(t, verb + ": "@ + (#[trigger] ps[i])@ + "\n"@) by {
        let pre = ps.take(i);
        let one = seq![ps[i]];
        let post = ps.skip(i + 1);
        assert(ps =~= pre + one + post);
        lemma_summary_lines_concat(pre + one, post, verb);
        lemma_summary_lines_concat(pre, one, verb);
        assert(one.drop_last() =~= Seq::<String>::empty());
        assert(summary_lines(one.drop_last(), verb) =~= Seq::<char>::empty());
        let line = verb + ": "@ + ps[i]@ + "\n"@;
        assert(summary_lines(one, verb) =~= line);
        assert(t =~= summary_lines(pre, verb) + line + (summary_lines(post, verb) + count));
        lemma_occurs_in_middle(summary_lines(pre, verb), line, summary_lines(post, verb) + count);
    }
    if ps.len() > 0 {
        let one = seq![ps[0]];
        let post = ps.skip(1);
        assert(ps =~= one + post);
        lemma_summary_lines_concat(one, post, verb);
        assert(one.drop_last() =~= Seq::<String>::empty());
        assert(summary_lines(one.drop_last(), verb) =~= Seq::<char>::empty());
        let line = verb + ": "@ + ps[0]@ + "\n"@;
        assert(summary_lines(one, verb) =~= line);
        assert(t =~= line + (summary_lines(post, verb) + count));
        assert(t.take(line.len() as int) =~= line);
    }
}

/// The summary printed after a run, e.g. `"created: ./GET.ts\n1 file(s) created.\n"`.
pub fn summary(report: &RunReport) -> (r: String)
    ensures
        r@ == summary_text(report),
{
    let verb = if report.dry_run {
        "would create"
    } else {
        "created"
    };
    let mut out = String::new();
    let n = report.created.len();
    let ghost ps = report.created@;
    let mut i: usize = 0;
    while i < n
        invariant
            n == ps.len(),
            ps == report.created@,
            verb@ == summary_verb(report.dry_run),
            i <= n,
            out@ == summary_lines(ps.take(i as int), verb@),
        decreases n - i,
    {
        out.append(verb);
        out.append(": ");
        out.append(report.created[i].as_str());
        out.append("\n");
        assert(ps.take(i + 1).drop_last() =~= ps.take(i as int));
        i = i + 1;
    }
    assert(ps.take(n as int) =~= ps);
    let count = decimal_str(n);
    out.append(count.as_str());
    out.append(" file(s) ");
    out.append(verb);
    out.append(".\n");
    out
}

} // verus!
