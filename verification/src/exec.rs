//! The decisions of starting a pipeline: which programs to start with which
//! arguments, which of them write into a pipe, and where each one's standard
//! input and output come from and go to.

use vstd::prelude::*;
use crate::command::{Command, SimpleCommandModel};
use crate::text::{clone_tail, owned};

verus! {

/// A copy of an optional string.
fn clone_opt(s: &Option<String>) -> (res: Option<String>)
    ensures
        res.deep_view() == s.deep_view(),
{
    match s {
        Some(t) => Some(t.clone()),
        None => None,
    }
}

/// What a `Stage` holds.
pub struct StageModel {
    pub name: Seq<char>,
    pub args: Seq<Seq<char>>,
    pub last: bool,
    pub in_file: Option<Seq<char>>,
    pub out_file: Option<Seq<char>>,
}

/// One program of a pipeline to start: the name to look up, the arguments
/// that follow it, whether it is the last of the pipeline, and its
/// redirections.
pub struct Stage {
    pub name: String,
    pub args: Vec<String>,
    pub last: bool,
    pub in_file: Option<String>,
    pub out_file: Option<String>,
}

impl View for Stage {
    type V = StageModel;

    open spec fn view(&self) -> StageModel {
        StageModel {
            name: self.name@,
            args: self.args.deep_view(),
            last: self.last,
            in_file: self.in_file.deep_view(),
            out_file: self.out_file.deep_view(),
        }
    }
}

/// The stage for the `i`-th of `n` simple commands.
pub open spec fn stage_of(s: SimpleCommandModel, i: int, n: int) -> StageModel {
    StageModel {
        name: s.arguments[0],
        args: s.arguments.drop_first(),
        last: i == n - 1,
        in_file: s.in_file,
        out_file: s.out_file,
    }
}

/// The models of the stages in `v`, in order.
pub open spec fn stage_models(v: Seq<Stage>) -> Seq<StageModel> {
    Seq::new(v.len(), |i: int| v[i]@)
}

/// The programs to start for `cmd`, one per simple command, in order.
/// Every simple command must have a first word, as every parsed one has.
pub fn launch_plan(cmd: &Command) -> (res: Vec<Stage>)
    requires
        forall|i: int| 0 <= i < cmd@.simple_commands.len() ==> #[trigger] cmd@.simple_commands[i].arguments.len() >= 1,
    ensures
        res@.len() == cmd@.simple_commands.len(),
        forall|i: int| 0 <= i < res@.len() ==> #[trigger] res@[i]@ == stage_of(cmd@.simple_commands[i], i, res@.len() as int),
{
    let n = cmd.simple_commands.len();
    let mut res: Vec<Stage> = Vec::new();
    let mut i: usize = 0;
    while i < n
        invariant
            n == cmd.simple_commands@.len(),
            n == cmd@.simple_commands.len(),
            forall|k: int| 0 <= k < cmd@.simple_commands.len() ==> #[trigger] cmd@.simple_commands[k].arguments.len() >= 1,
            i <= n,
            res@.len() == i,
            forall|k: int| 0 <= k < i ==> #[trigger] res@[k]@ == stage_of(cmd@.simple_commands[k], k, n as int),
        decreases n - i,
    {
        let sc = &cmd.simple_commands[i];
        assert(sc@ == cmd@.simple_commands[i as int]);
        let m = sc.arguments.len();
        assert(m >= 1);
        let name = sc.arguments[0].clone();
        let args = clone_tail(&sc.arguments);
        let stage = Stage {
            name,
            args,
            last: i == n - 1,
            in_file: clone_opt(&sc.in_file),
            out_file: clone_opt(&sc.out_file),
        };
        assert(stage@ == stage_of(cmd@.simple_commands[i as int], i as int, n as int));
        res.push(stage);
        i = i + 1;
    }
    res
}

/// The line that reports a name with no program behind it.
pub fn not_found_message(name: &str) -> (res: String)
    ensures
        res@ == name@ + ": command not found"@,
{
    owned(name).concat(": command not found")
}

/// Whether a stage writes into a pipe to the next one: it is not the last,
/// and its output is not redirected to a file.
pub open spec fn spec_needs_pipe(last: bool, out_file: Option<Seq<char>>) -> bool {
    !last && out_file is None
}

/// Decides whether a stage needs a pipe to the next one.
pub fn needs_pipe(last: bool, out_file: &Option<String>) -> (res: bool)
    ensures
        res == spec_needs_pipe(last, out_file.deep_view()),
{
    !last && out_file.is_none()
}

/// Where a started program reads its standard input from.
pub enum StdinSource {
    /// The named file, opened for reading.
    File(String),
    /// The read end of the previous stage's pipe.
    Fd(i32),
    /// The shell's own standard input.
    Inherit,
}

/// Where a started program writes its standard output to.
pub enum StdoutTarget {
    /// The named file.
    File(String),
    /// The write end of the pipe to the next stage.
    Pipe,
    /// The shell's own standard output.
    Inherit,
}

/// A standard input source by the character sequence of its file name.
pub enum StdinModel {
    File(Seq<char>),
    Fd(i32),
    Inherit,
}

/// A standard output target by the character sequence of its file name.
pub enum StdoutModel {
    File(Seq<char>),
    Pipe,
    Inherit,
}

/// The model of a standard input source.
pub open spec fn stdin_model(s: StdinSource) -> StdinModel {
    match s {
        StdinSource::File(p) => StdinModel::File(p@),
        StdinSource::Fd(fd) => StdinModel::Fd(fd),
        StdinSource::Inherit => StdinModel::Inherit,
    }
}

/// The model of a standard output target.
pub open spec fn stdout_model(s: StdoutTarget) -> StdoutModel {
    match s {
        StdoutTarget::File(p) => StdoutModel::File(p@),
        StdoutTarget::Pipe => StdoutModel::Pipe,
        StdoutTarget::Inherit => StdoutModel::Inherit,
    }
}

/// A redirection from a file wins over the previous stage's pipe; descriptor
/// 0 stands for no pipe.
pub open spec fn spec_stdin_source(inputfd: i32, in_file: Option<Seq<char>>) -> StdinModel {
    match in_file {
        Some(p) => StdinModel::File(p),
        None => if inputfd != 0 { StdinModel::Fd(inputfd) } else { StdinModel::Inherit },
    }
}

/// Chooses the standard input of a stage, given the read end `inputfd` left
/// by the previous stage (0 when there is none).
pub fn stdin_source(inputfd: i32, in_file: &Option<String>) -> (res: StdinSource)
    ensures
        stdin_model(res) == spec_stdin_source(inputfd, in_file.deep_view()),
{
    match in_file {
        Some(p) => StdinSource::File(p.clone()),
        None => if inputfd != 0 { StdinSource::Fd(inputfd) } else { StdinSource::Inherit },
    }
}

/// A redirection to a file wins over the pipe to the next stage; the last
/// stage writes where the shell does.
pub open spec fn spec_stdout_target(last: bool, out_file: Option<Seq<char>>) -> StdoutModel {
    match out_file {
        Some(p) => StdoutModel::File(p),
        None => if !last { StdoutModel::Pipe } else { StdoutModel::Inherit },
    }
}

/// Chooses the standard output of a stage.
pub fn stdout_target(last: bool, out_file: &Option<String>) -> (res: StdoutTarget)
    ensures
        stdout_model(res) == spec_stdout_target(last, out_file.deep_view()),
{
    match out_file {
        Some(p) => StdoutTarget::File(p.clone()),
        None => if !last { StdoutTarget::Pipe } else { StdoutTarget::Inherit },
    }
}

/// A stage writes into a pipe exactly when a pipe is made for it.
pub proof fn lemma_pipe_agrees(last: bool, out_file: Option<Seq<char>>)
    ensures
        (spec_stdout_target(last, out_file) == StdoutModel::Pipe) == spec_needs_pipe(last, out_file),
{
}

/// What the shell does with descriptors after starting a stage: the
/// descriptor it closes, if any, and the read end for the next stage.
pub open spec fn spec_parent_fds(inputfd: i32, pipe_read: Option<i32>) -> (Option<i32>, i32) {
    (
        if inputfd != 0 { Some(inputfd) } else { None },
        match pipe_read {
            Some(r) => r,
            None => inputfd,
        },
    )
}

/// After starting a stage that read from `inputfd` (0 for none) and wrote
/// into the pipe whose read end is `pipe_read` (if it had one): the
/// descriptor to close, and the read end to hand to the next stage.
pub fn parent_fds(inputfd: i32, pipe_read: Option<i32>) -> (res: (Option<i32>, i32))
    ensures
        res == spec_parent_fds(inputfd, pipe_read),
{
    let close = if inputfd != 0 { Some(inputfd) } else { None };
    let next = match pipe_read {
        Some(r) => r,
        None => inputfd,
    };
    (close, next)
}

} // verus!

verus! {

/// Whether the shell waits for the started programs: unless the line ended with `&`.
pub fn waits_for_children(cmd: &Command) -> (res: bool)
    ensures
        res == !cmd@.background,
{
    !cmd.background
}

/// The read end handed to stage `k`, when the shell applies `parent_fds`
/// after starting each earlier stage `j`, with `made[j]` the read end of the
/// pipe made for stage `j` (`None` when none was made).
pub open spec fn input_before(made: Seq<Option<i32>>, k: int) -> i32
    decreases k,
{
    if k <= 0 {
        0
    } else {
        spec_parent_fds(input_before(made, k - 1), made[k - 1]).1
    }
}

/// The last stage before `k` for which a pipe was made.
pub open spec fn last_made(made: Seq<Option<i32>>, k: int) -> Option<int>
    decreases k,
{
    if k <= 0 {
        None
    } else if made[k - 1] is Some {
        Some(k - 1)
    } else {
        last_made(made, k - 1)
    }
}

/// The stage whose pipe stage `k` reads: the last earlier stage that needs a pipe.
pub open spec fn feeder(stages: Seq<StageModel>, k: int) -> Option<int>
    decreases k,
{
    if k <= 0 {
        None
    } else if spec_needs_pipe(stages[k - 1].last, stages[k - 1].out_file) {
        Some(k - 1)
    } else {
        feeder(stages, k - 1)
    }
}

/// Each stage reads the pipe of the last earlier stage for which one was
/// made, or nothing (0) when there is none; when a pipe is made for exactly
/// the stages that need one, that is the last earlier stage that needs one.
pub proof fn lemma_stage_reads_feeder(stages: Seq<StageModel>, made: Seq<Option<i32>>, k: int)
    requires
        0 <= k <= made.len(),
    ensures
        input_before(made, k) == (match last_made(made, k) {
            Some(j) => made[j]->Some_0,
            None => 0,
        }),
        made.len() == stages.len() && (forall|j: int| 0 <= j < made.len() ==> ((#[trigger] made[j]) is Some
            <==> spec_needs_pipe(stages[j].last, stages[j].out_file))) ==> last_made(made, k) == feeder(
            stages,
            k,
        ),
    decreases k,
{
    if k > 0 {
        lemma_stage_reads_feeder(stages, made, k - 1);
    }
}

} // verus!

verus! {

/// A stage with an output redirection writes to that file, whether it is
/// the last stage or not.
pub proof fn law_output_redirection_wins(last: bool, f: Seq<char>)
    ensures
        spec_stdout_target(last, Some(f)) == StdoutModel::File(f),
{
}

/// Without a redirection, every stage but the last writes into the pipe to
/// the next one, and the last one writes where the shell does.
pub proof fn law_output_without_redirection(last: bool)
    ensures
        last ==> spec_stdout_target(last, None) == StdoutModel::Inherit,
        !last ==> spec_stdout_target(last, None) == StdoutModel::Pipe,
{
}

/// A stage with an input redirection reads that file, whatever the previous
/// stage left; without one it reads the previous stage's pipe when there is
/// one (a descriptor other than 0), and the shell's input otherwise.
pub proof fn law_input_source(inputfd: i32, f: Seq<char>)
    ensures
        spec_stdin_source(inputfd, Some(f)) == StdinModel::File(f),
        inputfd != 0 ==> spec_stdin_source(inputfd, None) == StdinModel::Fd(inputfd),
        spec_stdin_source(0, None) == StdinModel::Inherit,
{
}

/// After a stage starts, the shell closes the descriptor it read from
/// exactly when there was one, and hands on the new pipe's read end when a
/// pipe was made, the old descriptor otherwise.
pub proof fn law_parent_fds(inputfd: i32, pipe_read: Option<i32>)
    ensures
        (spec_parent_fds(inputfd, pipe_read).0 is Some) == (inputfd != 0),
        spec_parent_fds(inputfd, pipe_read).0 is Some ==> spec_parent_fds(inputfd, pipe_read).0->Some_0 == inputfd,
        pipe_read matches Some(r) ==> spec_parent_fds(inputfd, pipe_read).1 == r,
        pipe_read is None ==> spec_parent_fds(inputfd, pipe_read).1 == inputfd,
{
}

} // verus!

verus! {

/// A pipe is made for a stage exactly when it is not the last and its output
/// is not redirected to a file.
pub proof fn law_needs_pipe(last: bool, out_file: Option<Seq<char>>)
    ensures
        spec_needs_pipe(last, out_file) == (!last && out_file is None),
        last ==> !spec_needs_pipe(last, out_file),
        out_file is Some ==> !spec_needs_pipe(last, out_file),
{
}

/// Of the stages of an `n`-command pipeline only the final one is the last;
/// each stage's name and arguments are its simple command's words, and its
/// redirections are kept.
pub proof fn law_stage_of(s: SimpleCommandModel, i: int, n: int)
    requires
        s.arguments.len() >= 1,
        0 <= i < n,
    ensures
        stage_of(s, i, n).last == (i == n - 1),
        seq![stage_of(s, i, n).name] + stage_of(s, i, n).args == s.arguments,
        stage_of(s, i, n).in_file == s.in_file,
        stage_of(s, i, n).out_file == s.out_file,
{
    assert(seq![s.arguments[0]] + s.arguments.drop_first() =~= s.arguments);
}

} // verus!

verus! {

/// The models of sources and targets keep their kind, file name and descriptor.
pub proof fn law_stream_models(p: String, fd: i32)
    ensures
        stdin_model(StdinSource::File(p)) == StdinModel::File(p@),
        stdin_model(StdinSource::Fd(fd)) == StdinModel::Fd(fd),
        stdin_model(StdinSource::Inherit) == StdinModel::Inherit,
        stdout_model(StdoutTarget::File(p)) == StdoutModel::File(p@),
        stdout_model(StdoutTarget::Pipe) == StdoutModel::Pipe,
        stdout_model(StdoutTarget::Inherit) == StdoutModel::Inherit,
{
}

} // verus!
