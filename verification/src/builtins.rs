//! The builtins `exit`, `cd` and `jobs`: which names they are, and what
//! they decide and report.

use vstd::prelude::*;
use crate::command::{Command, CommandModel};
use crate::shell::{job_models, Job, JobModel};
use crate::text::{clone_tail, decimal, owned, push_decimal, push_signed_decimal, signed_decimal, str_eq};

verus! {

/// The names that the shell runs itself rather than as a program.
pub open spec fn spec_is_builtin(name: Seq<char>) -> bool {
    name == "exit"@ || name == "cd"@ || name == "jobs"@
}

/// Whether `name` is one of the builtins `exit`, `cd` or `jobs`.
pub fn is_builtin(name: &str) -> (res: bool)
    ensures
        res == spec_is_builtin(name@),
{
    str_eq(name, "exit") || str_eq(name, "cd") || str_eq(name, "jobs")
}

} // verus!

verus! {

/// Why `cd` did not change directory.
pub enum CdError {
    /// More than one argument was given.
    TooManyArguments,
    /// No argument was given and the home directory is unknown.
    HomeNotSet,
    /// The target does not exist.
    NoSuchDirectory(String),
    /// The target exists but is not a directory.
    NotADirectory(String),
    /// Changing to the target failed.
    CannotChange(String),
}

/// A `cd` error by the character sequence of the target it names.
pub enum CdErrorModel {
    TooManyArguments,
    HomeNotSet,
    NoSuchDirectory(Seq<char>),
    NotADirectory(Seq<char>),
    CannotChange(Seq<char>),
}

impl View for CdError {
    type V = CdErrorModel;

    open spec fn view(&self) -> CdErrorModel {
        match self {
            CdError::TooManyArguments => CdErrorModel::TooManyArguments,
            CdError::HomeNotSet => CdErrorModel::HomeNotSet,
            CdError::NoSuchDirectory(t) => CdErrorModel::NoSuchDirectory(t@),
            CdError::NotADirectory(t) => CdErrorModel::NotADirectory(t@),
            CdError::CannotChange(t) => CdErrorModel::CannotChange(t@),
        }
    }
}

/// The line that reports a `cd` error.
pub open spec fn cd_error_message(e: CdErrorModel) -> Seq<char> {
    match e {
        CdErrorModel::TooManyArguments => "cd: too many arguments"@,
        CdErrorModel::HomeNotSet => "cd: HOME not set"@,
        CdErrorModel::NoSuchDirectory(t) => "cd: "@ + t + ": No such file or directory"@,
        CdErrorModel::NotADirectory(t) => "cd: "@ + t + ": Not a directory"@,
        CdErrorModel::CannotChange(t) => "cd: "@ + t + ": could not change directory"@,
    }
}

impl CdError {
    /// The line that reports this error.
    pub fn message(&self) -> (res: String)
        ensures
            res@ == cd_error_message(self@),
    {
        match self {
            CdError::TooManyArguments => owned("cd: too many arguments"),
            CdError::HomeNotSet => owned("cd: HOME not set"),
            CdError::NoSuchDirectory(t) => owned("cd: ").concat(t.as_str()).concat(": No such file or directory"),
            CdError::NotADirectory(t) => owned("cd: ").concat(t.as_str()).concat(": Not a directory"),
            CdError::CannotChange(t) => owned("cd: ").concat(t.as_str()).concat(": could not change directory"),
        }
    }
}

/// The directory `cd` goes to: its one argument, or the home directory when
/// it has none.
pub open spec fn spec_cd_target(args: Seq<Seq<char>>, home: Option<Seq<char>>) -> Result<Seq<char>, CdErrorModel> {
    if args.len() > 1 {
        Err(CdErrorModel::TooManyArguments)
    } else if args.len() == 0 {
        match home {
            Some(h) => Ok(h),
            None => Err(CdErrorModel::HomeNotSet),
        }
    } else {
        Ok(args[0])
    }
}

/// A `cd` outcome by models.
pub open spec fn cd_result_model(r: Result<String, CdError>) -> Result<Seq<char>, CdErrorModel> {
    match r {
        Ok(t) => Ok(t@),
        Err(e) => Err(e@),
    }
}

/// Chooses where `cd` goes, given its arguments and `home`, the value of the
/// home directory variable when it is set.
pub fn cd_target(args: &[String], home: Option<String>) -> (res: Result<String, CdError>)
    ensures
        cd_result_model(res) == spec_cd_target(args@.map_values(|a: String| a@), home.deep_view()),
{
    if args.len() > 1 {
        Err(CdError::TooManyArguments)
    } else if args.len() == 0 {
        match home {
            Some(h) => Ok(h),
            None => Err(CdError::HomeNotSet),
        }
    } else {
        Ok(args[0].clone())
    }
}

/// Whether `cd` may go to a target, given what the file system says of it.
pub open spec fn spec_cd_check(target: Seq<char>, exists: bool, is_dir: bool) -> Result<Seq<char>, CdErrorModel> {
    if !exists {
        Err(CdErrorModel::NoSuchDirectory(target))
    } else if !is_dir {
        Err(CdErrorModel::NotADirectory(target))
    } else {
        Ok(target)
    }
}

/// Checks the target of `cd`: `exists` and `is_dir` say whether it exists
/// and whether it is a directory.
pub fn cd_check(target: String, exists: bool, is_dir: bool) -> (res: Result<String, CdError>)
    ensures
        cd_result_model(res) == spec_cd_check(target@, exists, is_dir),
{
    if !exists {
        Err(CdError::NoSuchDirectory(target))
    } else if !is_dir {
        Err(CdError::NotADirectory(target))
    } else {
        Ok(target)
    }
}

/// The line of `jobs` for one job: `[number]+ pid line`.
pub open spec fn job_line(j: JobModel) -> Seq<char> {
    "["@ + decimal(j.job_num as nat) + "]+ "@ + signed_decimal(j.pid as int) + " "@ + j.cmd_line
}

/// What `jobs` prints: one line per job, or a notice when there is none.
pub open spec fn spec_jobs_lines(jobs: Seq<JobModel>) -> Seq<Seq<char>> {
    if jobs.len() == 0 {
        seq!["No active background processes"@]
    } else {
        jobs.map_values(|j: JobModel| job_line(j))
    }
}

/// The lines that the `jobs` builtin prints for `job_list`.
pub fn jobs_lines(job_list: &Vec<Job>) -> (res: Vec<String>)
    ensures
        res.deep_view() == spec_jobs_lines(job_models(job_list@)),
{
    let mut res: Vec<String> = Vec::new();
    let n = job_list.len();
    if n == 0 {
        res.push(owned("No active background processes"));
        assert(res.deep_view() =~= seq!["No active background processes"@]);
        return res;
    }
    let ghost jobs = job_models(job_list@);
    let mut i: usize = 0;
    while i < n
        invariant
            n == job_list@.len(),
            jobs == job_models(job_list@),
            i <= n,
            res.deep_view() == jobs.take(i as int).map_values(|j: JobModel| job_line(j)),
        decreases n - i,
    {
        let job = &job_list[i];
        let mut line = owned("[");
        push_decimal(&mut line, job.job_num as u64);
        line.append("]+ ");
        push_signed_decimal(&mut line, job.pid);
        line.append(" ");
        line.append(job.cmd_line.as_str());
        let ghost before = res.deep_view();
        res.push(line);
        assert(res.deep_view() =~= before.push(line@));
        assert(jobs.take(i + 1).map_values(|j: JobModel| job_line(j)) =~= jobs.take(i as int).map_values(
            |j: JobModel| job_line(j),
        ).push(job_line(jobs[i as int])));
        i = i + 1;
    }
    assert(jobs.take(n as int) =~= jobs);
    res
}

/// What `exit` prints of the history: the last valid line, or the last three.
pub open spec fn spec_exit_lines(history: Seq<Seq<char>>) -> Seq<Seq<char>> {
    let n = history.len();
    if n == 0 {
        seq!["No valid commands"@]
    } else if n < 3 {
        seq!["Last valid command:"@, history[n - 1]]
    } else {
        seq!["Last three valid commands:"@, history[n - 3], history[n - 2], history[n - 1]]
    }
}

/// The lines that the `exit` builtin prints for `history`.
pub fn exit_lines(history: &Vec<String>) -> (res: Vec<String>)
    ensures
        res.deep_view() == spec_exit_lines(history.deep_view()),
{
    let n = history.len();
    let mut res: Vec<String> = Vec::new();
    if n == 0 {
        res.push(owned("No valid commands"));
    } else if n < 3 {
        res.push(owned("Last valid command:"));
        res.push(history[n - 1].clone());
    } else {
        res.push(owned("Last three valid commands:"));
        res.push(history[n - 3].clone());
        res.push(history[n - 2].clone());
        res.push(history[n - 1].clone());
    }
    assert(res.deep_view() =~= spec_exit_lines(history.deep_view()));
    res
}

} // verus!

verus! {

/// What the shell does with a parsed line.
pub enum Action {
    /// Nothing: the line has no command.
    Nothing,
    /// The `exit` builtin.
    Exit,
    /// The `cd` builtin with these arguments.
    Cd(Vec<String>),
    /// The `jobs` builtin.
    Jobs,
    /// Start the pipeline's programs.
    Run,
}

/// The model of an action.
pub enum ActionModel {
    Nothing,
    Exit,
    Cd(Seq<Seq<char>>),
    Jobs,
    Run,
}

impl View for Action {
    type V = ActionModel;

    open spec fn view(&self) -> ActionModel {
        match self {
            Action::Nothing => ActionModel::Nothing,
            Action::Exit => ActionModel::Exit,
            Action::Cd(a) => ActionModel::Cd(a.deep_view()),
            Action::Jobs => ActionModel::Jobs,
            Action::Run => ActionModel::Run,
        }
    }
}

/// The builtin named by the first word of the first simple command, with the
/// words after it for `cd`; otherwise running the pipeline.
pub open spec fn spec_action(cmd: CommandModel) -> ActionModel {
    if cmd.simple_commands.len() == 0 {
        ActionModel::Nothing
    } else {
        let words = cmd.simple_commands[0].arguments;
        if words[0] == "exit"@ {
            ActionModel::Exit
        } else if words[0] == "cd"@ {
            ActionModel::Cd(words.drop_first())
        } else if words[0] == "jobs"@ {
            ActionModel::Jobs
        } else {
            ActionModel::Run
        }
    }
}

/// Decides what to do with a parsed line. The first simple command, if
/// any, must have a first word, as every parsed one has.
pub fn dispatch(cmd: &Command) -> (res: Action)
    requires
        cmd@.simple_commands.len() > 0 ==> cmd@.simple_commands[0].arguments.len() >= 1,
    ensures
        res@ == spec_action(cmd@),
{
    if cmd.simple_commands.len() == 0 {
        return Action::Nothing;
    }
    let first = &cmd.simple_commands[0];
    assert(first@ == cmd@.simple_commands[0]);
    assert(cmd@.simple_commands[0].arguments.len() >= 1);
    assert(first.arguments@.len() == first.arguments.deep_view().len());
    let name = first.arguments[0].as_str();
    assert(name@ == first@.arguments[0]);
    if !is_builtin(name) {
        return Action::Run;
    }
    if str_eq(name, "exit") {
        Action::Exit
    } else if str_eq(name, "cd") {
        let args = clone_tail(&first.arguments);
        Action::Cd(args)
    } else {
        Action::Jobs
    }
}

} // verus!

verus! {

/// Records a handled line in the history: `jobs` always counts, `cd` and
/// running programs count when they succeeded, and `exit` ends the shell.
pub fn record_line(history: &mut Vec<String>, action: &Action, succeeded: bool, line: String) -> (stop: bool)
    ensures
        stop == (action@ is Exit),
        final(history).deep_view() == (if action@ is Jobs || ((action@ is Cd || action@ is Run) && succeeded) {
            old(history).deep_view().push(line@)
        } else {
            old(history).deep_view()
        }),
{
    let record = match action {
        Action::Jobs => true,
        Action::Cd(_) | Action::Run => succeeded,
        _ => false,
    };
    if record {
        let ghost before = history.deep_view();
        history.push(line);
        assert(history.deep_view() =~= before.push(line@));
    }
    match action {
        Action::Exit => true,
        _ => false,
    }
}

} // verus!

verus! {

/// The builtin names are three different words.
proof fn lemma_builtin_names_distinct()
    ensures
        "exit"@ != "cd"@,
        "exit"@ != "jobs"@,
        "cd"@ != "jobs"@,
{
    reveal_strlit("exit");
    reveal_strlit("cd");
    reveal_strlit("jobs");
    assert("exit"@.len() == 4);
    assert("cd"@.len() == 2);
    assert("jobs"@.len() == 4);
    assert("exit"@[0] != "jobs"@[0]);
}

/// `exit` reports the whole history when it has one or two lines (the last
/// line only), and otherwise only its last three lines count: three or more
/// lines give the three-line form with exactly those lines, oldest first.
pub proof fn law_exit_lines(history: Seq<Seq<char>>)
    ensures
        history.len() == 0 ==> spec_exit_lines(history) == seq!["No valid commands"@],
        1 <= history.len() <= 2 ==> spec_exit_lines(history) == seq!["Last valid command:"@, history.last()],
        history.len() >= 3 ==> ({
            let n = history.len() as int;
            &&& spec_exit_lines(history).len() == 4
            &&& spec_exit_lines(history)[0] == "Last three valid commands:"@
            &&& spec_exit_lines(history).drop_first() == history.subrange(n - 3, n)
            &&& spec_exit_lines(history) == spec_exit_lines(history.subrange(n - 3, n))
        }),
{
    let n = history.len() as int;
    if n >= 3 {
        assert(spec_exit_lines(history).drop_first() =~= history.subrange(n - 3, n));
        let t = history.subrange(n - 3, n);
        assert(t.len() == 3);
        assert(spec_exit_lines(history) =~= spec_exit_lines(t));
    }
}

/// The first word of the first simple command decides: each builtin name
/// gives its builtin whatever follows it (`cd` carrying all the following
/// words, none included), and any other name runs the pipeline.
pub proof fn law_dispatch(cmd: CommandModel)
    ensures
        cmd.simple_commands.len() == 0 ==> spec_action(cmd) == ActionModel::Nothing,
        cmd.simple_commands.len() > 0 && cmd.simple_commands[0].arguments.len() >= 1 ==> ({
            let w = cmd.simple_commands[0].arguments;
            &&& w[0] == "exit"@ ==> spec_action(cmd) == ActionModel::Exit
            &&& w[0] == "cd"@ ==> spec_action(cmd) == ActionModel::Cd(w.drop_first())
            &&& w[0] == "jobs"@ ==> spec_action(cmd) == ActionModel::Jobs
            &&& (spec_action(cmd) == ActionModel::Run) == !spec_is_builtin(w[0])
        }),
{
    lemma_builtin_names_distinct();
}

/// `cd` goes to its one argument whatever the home directory is, to the home
/// directory when it has none, and refuses two or more arguments.
pub proof fn law_cd_target(args: Seq<Seq<char>>, home: Option<Seq<char>>)
    ensures
        args.len() == 1 ==> spec_cd_target(args, home) == Ok::<Seq<char>, CdErrorModel>(args[0]),
        args.len() == 0 && home is Some ==> spec_cd_target(args, home) == Ok::<Seq<char>, CdErrorModel>(home->Some_0),
        args.len() == 0 && home is None ==> spec_cd_target(args, home) == Err::<Seq<char>, CdErrorModel>(CdErrorModel::HomeNotSet),
        args.len() >= 2 ==> spec_cd_target(args, home) == Err::<Seq<char>, CdErrorModel>(CdErrorModel::TooManyArguments),
{
}

/// `cd` accepts exactly an existing directory, and keeps its name; a
/// missing target and a target that is not a directory are told apart.
pub proof fn law_cd_check(target: Seq<char>, exists: bool, is_dir: bool)
    ensures
        (spec_cd_check(target, exists, is_dir) is Ok) == (exists && is_dir),
        spec_cd_check(target, exists, is_dir) is Ok ==> spec_cd_check(target, exists, is_dir)->Ok_0 == target,
        !exists ==> spec_cd_check(target, exists, is_dir) == Err::<Seq<char>, CdErrorModel>(CdErrorModel::NoSuchDirectory(target)),
        exists && !is_dir ==> spec_cd_check(target, exists, is_dir) == Err::<Seq<char>, CdErrorModel>(CdErrorModel::NotADirectory(target)),
{
}

/// `jobs` prints one line per job, in order: the job's number in brackets,
/// `+`, its process id and its line; a notice only when there is no job.
pub proof fn law_jobs_lines(jobs: Seq<JobModel>)
    ensures
        jobs.len() == 0 ==> spec_jobs_lines(jobs) == seq!["No active background processes"@],
        jobs.len() > 0 ==> spec_jobs_lines(jobs).len() == jobs.len(),
        jobs.len() > 0 ==> forall|i: int| 0 <= i < jobs.len() ==> #[trigger] spec_jobs_lines(jobs)[i] == "["@ + decimal(
            jobs[i].job_num as nat,
        ) + "]+ "@ + signed_decimal(jobs[i].pid as int) + " "@ + jobs[i].cmd_line,
{
}

} // verus!

verus! {

/// Exactly `exit`, `cd` and `jobs` are builtins, each distinct from the others.
pub proof fn law_builtin_names(name: Seq<char>)
    ensures
        spec_is_builtin(name) == (name == "exit"@ || name == "cd"@ || name == "jobs"@),
        spec_is_builtin("exit"@) && spec_is_builtin("cd"@) && spec_is_builtin("jobs"@),
        "exit"@ != "cd"@ && "exit"@ != "jobs"@ && "cd"@ != "jobs"@,
{
    lemma_builtin_names_distinct();
}

/// The `cd` messages name the target between `cd: ` and the reason.
pub proof fn law_cd_messages(t: Seq<char>)
    ensures
        cd_error_message(CdErrorModel::TooManyArguments) == "cd: too many arguments"@,
        cd_error_message(CdErrorModel::HomeNotSet) == "cd: HOME not set"@,
        cd_error_message(CdErrorModel::NoSuchDirectory(t)) == "cd: "@ + t + ": No such file or directory"@,
        cd_error_message(CdErrorModel::NotADirectory(t)) == "cd: "@ + t + ": Not a directory"@,
        cd_error_message(CdErrorModel::CannotChange(t)) == "cd: "@ + t + ": could not change directory"@,
{
}

} // verus!

verus! {

/// The models of `cd` outcomes and of actions keep their kind and text.
pub proof fn law_builtin_models(t: String, args: Vec<String>, e: CdError)
    ensures
        cd_result_model(Ok(t)) == Ok::<Seq<char>, CdErrorModel>(t@),
        cd_result_model(Err(e)) == Err::<Seq<char>, CdErrorModel>(e@),
        CdError::TooManyArguments@ == CdErrorModel::TooManyArguments,
        CdError::HomeNotSet@ == CdErrorModel::HomeNotSet,
        CdError::NoSuchDirectory(t)@ == CdErrorModel::NoSuchDirectory(t@),
        CdError::NotADirectory(t)@ == CdErrorModel::NotADirectory(t@),
        CdError::CannotChange(t)@ == CdErrorModel::CannotChange(t@),
        Action::Nothing@ == ActionModel::Nothing,
        Action::Exit@ == ActionModel::Exit,
        Action::Cd(args)@ == ActionModel::Cd(args.deep_view()),
        Action::Jobs@ == ActionModel::Jobs,
        Action::Run@ == ActionModel::Run,
{
}

} // verus!
