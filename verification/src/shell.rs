//! The shell's state: the prompt's parts, the history of accepted lines and
//! the table of background jobs, and how a report from waiting on child
//! processes changes that table.

use vstd::prelude::*;
use crate::text::{decimal, owned, push_decimal, push_signed_decimal, signed_decimal};

verus! {

/// What a `Job` holds.
pub struct JobModel {
    pub job_num: usize,
    pub pid: i32,
    pub cmd_line: Seq<char>,
}

/// A command running in the background: its number, its process id and its line.
#[derive(Debug)]
pub struct Job {
    pub job_num: usize,
    pub pid: i32,
    pub cmd_line: String,
}

impl View for Job {
    type V = JobModel;

    open spec fn view(&self) -> JobModel {
        JobModel { job_num: self.job_num, pid: self.pid, cmd_line: self.cmd_line@ }
    }
}

impl Job {
    /// The job numbered `num` for process `pid`, started by the line `cmd`.
    pub fn new(num: usize, pid: i32, cmd: String) -> (res: Self)
        ensures
            res@ == (JobModel { job_num: num, pid, cmd_line: cmd@ }),
    {
        Job { job_num: num, pid: pid, cmd_line: cmd }
    }
}

/// The models of the jobs in `v`, in order.
pub open spec fn job_models(v: Seq<Job>) -> Seq<JobModel> {
    Seq::new(v.len(), |i: int| v[i]@)
}

/// What a `Shell` holds.
pub struct ShellModel {
    pub history: Seq<Seq<char>>,
    pub job_list: Seq<JobModel>,
    pub user: Seq<char>,
    pub machine: Seq<char>,
    pub pwd: Seq<char>,
    pub jobs: usize,
}

/// The shell's state between two lines.
pub struct Shell {
    pub history: Vec<String>,
    pub job_list: Vec<Job>,
    pub user: String,
    pub machine: String,
    pub pwd: String,
    pub jobs: usize,
}

impl View for Shell {
    type V = ShellModel;

    open spec fn view(&self) -> ShellModel {
        ShellModel {
            history: self.history.deep_view(),
            job_list: job_models(self.job_list@),
            user: self.user@,
            machine: self.machine@,
            pwd: self.pwd@,
            jobs: self.jobs,
        }
    }
}

/// The jobs of `jobs` whose process is not `pid`, in order.
pub open spec fn without_pid(jobs: Seq<JobModel>, pid: i32) -> Seq<JobModel> {
    jobs.filter(|j: JobModel| j.pid != pid)
}

/// The first job of `jobs` whose process is `pid`, if any.
pub open spec fn find_job(jobs: Seq<JobModel>, pid: i32) -> Option<JobModel>
    decreases jobs.len(),
{
    if jobs.len() == 0 {
        None
    } else if jobs[0].pid == pid {
        Some(jobs[0])
    } else {
        find_job(jobs.drop_first(), pid)
    }
}

/// What waiting on a child process reported.
pub enum WaitEvent {
    /// The process with this id exited.
    Exited(i32),
    /// The process with this id was killed by the named signal.
    Signaled(i32, String),
    /// Children exist but none has changed state.
    StillAlive,
    /// There is no child to wait for.
    NoChildren,
    /// Waiting failed, with this description of the error.
    Failed(String),
    /// A child stopped or continued.
    Other,
}

/// A line for the user, or none.
pub enum Report {
    /// A line for standard output.
    Out(String),
    /// A line for standard error.
    Error(String),
    /// Nothing to say.
    Silent,
}

/// A report by the character sequence of its line.
pub enum ReportModel {
    Out(Seq<char>),
    Error(Seq<char>),
    Silent,
}

/// The model of a report.
pub open spec fn report_model(r: Report) -> ReportModel {
    match r {
        Report::Out(s) => ReportModel::Out(s@),
        Report::Error(s) => ReportModel::Error(s@),
        Report::Silent => ReportModel::Silent,
    }
}

/// The model of a wait event.
pub enum WaitEventModel {
    Exited(i32),
    Signaled(i32, Seq<char>),
    StillAlive,
    NoChildren,
    Failed(Seq<char>),
    Other,
}

/// The model of a wait event.
pub open spec fn wait_event_model(e: WaitEvent) -> WaitEventModel {
    match e {
        WaitEvent::Exited(p) => WaitEventModel::Exited(p),
        WaitEvent::Signaled(p, s) => WaitEventModel::Signaled(p, s@),
        WaitEvent::StillAlive => WaitEventModel::StillAlive,
        WaitEvent::NoChildren => WaitEventModel::NoChildren,
        WaitEvent::Failed(s) => WaitEventModel::Failed(s@),
        WaitEvent::Other => WaitEventModel::Other,
    }
}

/// The job table after an event: the jobs of a process that ended leave it.
pub open spec fn jobs_after(jobs: Seq<JobModel>, e: WaitEventModel) -> Seq<JobModel> {
    match e {
        WaitEventModel::Exited(pid) => without_pid(jobs, pid),
        WaitEventModel::Signaled(pid, _) => without_pid(jobs, pid),
        _ => jobs,
    }
}

/// What the user is told of an event.
pub open spec fn report_for(jobs: Seq<JobModel>, e: WaitEventModel) -> ReportModel {
    match e {
        WaitEventModel::Exited(pid) => match find_job(jobs, pid) {
            Some(j) => ReportModel::Out("["@ + decimal(j.job_num as nat) + "]+ done "@ + j.cmd_line),
            None => ReportModel::Silent,
        },
        WaitEventModel::Signaled(pid, sig) => ReportModel::Out(
            "Child "@ + signed_decimal(pid as int) + " was killed by signal: "@ + sig,
        ),
        WaitEventModel::StillAlive => ReportModel::Silent,
        WaitEventModel::NoChildren => ReportModel::Silent,
        WaitEventModel::Failed(err) => ReportModel::Error("Error waiting for child process: "@ + err),
        WaitEventModel::Other => ReportModel::Out("Other state change occurred (Stopped/Continued)."@),
    }
}

/// Whether to wait again after an event: not once nothing is left to collect
/// or waiting failed.
pub open spec fn keeps_waiting(e: WaitEventModel) -> bool {
    match e {
        WaitEventModel::StillAlive | WaitEventModel::NoChildren | WaitEventModel::Failed(_) => false,
        _ => true,
    }
}

/// Appending one job keeps it in the filtered table exactly when its process differs.
pub proof fn lemma_without_pid_push(p: Seq<JobModel>, x: JobModel, pid: i32)
    ensures
        without_pid(p.push(x), pid) == (if x.pid != pid { without_pid(p, pid).push(x) } else { without_pid(p, pid) }),
{
    reveal(Seq::filter);
    assert(p.push(x).drop_last() =~= p);
}

/// After the jobs of `pid` are removed, no job of `pid` is left, and every
/// job of another process is still there.
pub proof fn lemma_without_pid_removes(jobs: Seq<JobModel>, pid: i32)
    ensures
        forall|k: int| 0 <= k < without_pid(jobs, pid).len() ==> #[trigger] without_pid(jobs, pid)[k].pid != pid,
        forall|k: int| 0 <= k < jobs.len() && jobs[k].pid != pid ==> without_pid(jobs, pid).contains(#[trigger] jobs[k]),
{
    broadcast use vstd::seq_lib::group_filter_ensures;
    let f = |j: JobModel| j.pid != pid;
    assert forall|k: int| 0 <= k < without_pid(jobs, pid).len() implies #[trigger] without_pid(jobs, pid)[k].pid != pid by {
        jobs.lemma_filter_pred(f, k);
    }
    assert forall|k: int| 0 <= k < jobs.len() && jobs[k].pid != pid implies without_pid(jobs, pid).contains(#[trigger] jobs[k]) by {
        jobs.lemma_filter_contains(f, k);
    }
}

impl Shell {
    /// A shell with an empty history and job table, for the given user,
    /// machine and working directory.
    pub fn new(user: String, machine: String, pwd: String) -> (res: Self)
        ensures
            res@ == (ShellModel {
                history: Seq::empty(),
                job_list: Seq::empty(),
                user: user@,
                machine: machine@,
                pwd: pwd@,
                jobs: 0,
            }),
    {
        let res = Shell { history: Vec::new(), job_list: Vec::new(), user, machine, pwd, jobs: 0 };
        assert(res@.history =~= Seq::<Seq<char>>::empty());
        assert(res@.job_list =~= Seq::<JobModel>::empty());
        res
    }

    /// Takes the current user, machine and working directory.
    pub fn update_env(&mut self, user: String, machine: String, pwd: String)
        ensures
            final(self)@ == (ShellModel { user: user@, machine: machine@, pwd: pwd@, ..old(self)@ }),
    {
        self.user = user;
        self.machine = machine;
        self.pwd = pwd;
    }

    /// The prompt `user@machine:pwd> `.
    pub fn prompt(&self) -> (res: String)
        ensures
            res@ == self.user@ + "@"@ + self.machine@ + ":"@ + self.pwd@ + "> "@,
    {
        let mut res = owned(self.user.as_str());
        res.append("@");
        res.append(self.machine.as_str());
        res.append(":");
        res.append(self.pwd.as_str());
        res.append("> ");
        res
    }

    /// Removes from the job table every job of process `pid`.
    fn remove_jobs_of(&mut self, pid: i32)
        ensures
            final(self)@ == (ShellModel { job_list: without_pid(old(self)@.job_list, pid), ..old(self)@ }),
    {
        let ghost orig = job_models(self.job_list@);
        let mut rest: Vec<Job> = Vec::new();
        std::mem::swap(&mut rest, &mut self.job_list);
        let mut kept: Vec<Job> = Vec::new();
        let ghost mut k: int = 0;
        assert(job_models(kept@) =~= without_pid(orig.take(0), pid)) by {
            reveal(Seq::filter);
        }
        assert(job_models(rest@) =~= orig.skip(0));
        while rest.len() > 0
            invariant
                0 <= k <= orig.len(),
                job_models(rest@) == orig.skip(k),
                job_models(kept@) == without_pid(orig.take(k), pid),
                self.job_list@.len() == 0,
                self.history == old(self).history,
                self.user == old(self).user,
                self.machine == old(self).machine,
                self.pwd == old(self).pwd,
                self.jobs == old(self).jobs,
            decreases rest@.len(),
        {
            let ghost before_rest = job_models(rest@);
            let job = rest.remove(0);
            let ghost m = job@;
            assert(before_rest[0] == m);
            assert(job_models(rest@) =~= before_rest.drop_first());
            assert(orig.skip(k).drop_first() =~= orig.skip(k + 1));
            assert(orig.take(k + 1) =~= orig.take(k).push(m));
            proof {
                lemma_without_pid_push(orig.take(k), m, pid);
            }
            if job.pid != pid {
                let ghost before_kept = job_models(kept@);
                kept.push(job);
                assert(job_models(kept@) =~= before_kept.push(m));
            }
            proof {
                k = k + 1;
            }
        }
        assert(orig.skip(k).len() == 0);
        assert(orig.take(k) =~= orig);
        self.job_list = kept;
    }

    /// Handles one report of waiting on the children: updates the job table,
    /// and says what to tell the user and whether to wait again.
    pub fn on_wait_event(&mut self, event: WaitEvent) -> (res: (Report, bool))
        ensures
            final(self)@ == (ShellModel {
                job_list: jobs_after(old(self)@.job_list, wait_event_model(event)),
                ..old(self)@
            }),
            report_model(res.0) == report_for(old(self)@.job_list, wait_event_model(event)),
            res.1 == keeps_waiting(wait_event_model(event)),
    {
        match event {
            WaitEvent::Exited(pid) => {
                let report = self.done_report(pid);
                self.remove_jobs_of(pid);
                (report, true)
            },
            WaitEvent::Signaled(pid, sig) => {
                let mut line = owned("Child ");
                push_signed_decimal(&mut line, pid);
                line.append(" was killed by signal: ");
                line.append(sig.as_str());
                self.remove_jobs_of(pid);
                (Report::Out(line), true)
            },
            WaitEvent::StillAlive => (Report::Silent, false),
            WaitEvent::NoChildren => (Report::Silent, false),
            WaitEvent::Failed(err) => {
                let line = owned("Error waiting for child process: ").concat(err.as_str());
                (Report::Error(line), false)
            },
            WaitEvent::Other => (Report::Out(owned("Other state change occurred (Stopped/Continued).")), true),
        }
    }

    /// The line that announces the end of the first job of `pid`, if there is one.
    fn done_report(&self, pid: i32) -> (res: Report)
        ensures
            report_model(res) == report_for(self@.job_list, WaitEventModel::Exited(pid)),
    {
        let ghost jobs = job_models(self.job_list@);
        let n = self.job_list.len();
        let mut i: usize = 0;
        assert(jobs.skip(0) =~= jobs);
        while i < n
            invariant
                n == self.job_list@.len(),
                jobs == job_models(self.job_list@),
                i <= n,
                find_job(jobs, pid) == find_job(jobs.skip(i as int), pid),
            decreases n - i,
        {
            assert(jobs.skip(i as int)[0] == self.job_list@[i as int]@);
            assert(jobs.skip(i as int).drop_first() =~= jobs.skip(i + 1));
            let job = &self.job_list[i];
            if job.pid == pid {
                let mut line = owned("[");
                push_decimal(&mut line, job.job_num as u64);
                line.append("]+ done ");
                line.append(job.cmd_line.as_str());
                return Report::Out(line);
            }
            i = i + 1;
        }
        Report::Silent
    }
}

} // verus!

verus! {

/// A killed child is always reported, with its process id and signal,
/// whatever the job table holds (two tables give the same report); its jobs
/// leave the table, and waiting goes on.
pub proof fn law_killed_child_reported(jobs: Seq<JobModel>, other: Seq<JobModel>, pid: i32, sig: Seq<char>)
    ensures
        report_for(jobs, WaitEventModel::Signaled(pid, sig)) == ReportModel::Out(
            "Child "@ + signed_decimal(pid as int) + " was killed by signal: "@ + sig,
        ),
        report_for(jobs, WaitEventModel::Signaled(pid, sig)) == report_for(other, WaitEventModel::Signaled(pid, sig)),
        keeps_waiting(WaitEventModel::Signaled(pid, sig)),
        forall|k: int| 0 <= k < jobs_after(jobs, WaitEventModel::Signaled(pid, sig)).len() ==>
            #[trigger] jobs_after(jobs, WaitEventModel::Signaled(pid, sig))[k].pid != pid,
{
    lemma_without_pid_removes(jobs, pid);
}

/// The first job of a process is found when there is one, and none otherwise.
pub proof fn law_find_job(jobs: Seq<JobModel>, pid: i32)
    ensures
        find_job(jobs, pid) is None <==> forall|k: int| 0 <= k < jobs.len() ==> jobs[k].pid != pid,
        find_job(jobs, pid) matches Some(j) ==> exists|k: int|
            0 <= k < jobs.len() && #[trigger] jobs[k] == j && j.pid == pid && forall|m: int| 0 <= m < k ==> jobs[m].pid != pid,
    decreases jobs.len(),
{
    if jobs.len() > 0 {
        let rest = jobs.drop_first();
        law_find_job(rest, pid);
        if jobs[0].pid != pid {
            assert forall|k: int| 0 <= k < rest.len() implies rest[k] == jobs[k + 1] by {}
            if find_job(jobs, pid) is None {
                assert forall|k: int| 0 <= k < jobs.len() implies jobs[k].pid != pid by {
                    if k > 0 {
                        assert(jobs[k] == rest[k - 1]);
                    }
                }
            }
            if let Some(j) = find_job(rest, pid) {
                let k = choose|k: int|
                    0 <= k < rest.len() && #[trigger] rest[k] == j && j.pid == pid && forall|m: int| 0 <= m < k ==> rest[m].pid != pid;
                assert(jobs[k + 1] == j);
                assert forall|m: int| 0 <= m < k + 1 implies jobs[m].pid != pid by {
                    if m > 0 {
                        assert(jobs[m] == rest[m - 1]);
                    }
                }
            }
        } else {
            assert(jobs[0] == jobs[0]);
        }
    }
}

/// An exited child is announced with the number and line of its first job
/// when it has one, and silently forgotten otherwise; its jobs leave the
/// table, every other job stays, and waiting goes on.
pub proof fn law_exited_child(jobs: Seq<JobModel>, pid: i32)
    ensures
        (forall|k: int| 0 <= k < jobs.len() ==> jobs[k].pid != pid) ==> report_for(jobs, WaitEventModel::Exited(pid))
            == ReportModel::Silent,
        forall|k: int|
            0 <= k < jobs.len() && jobs[k].pid == pid && (forall|m: int| 0 <= m < k ==> jobs[m].pid != pid) ==> report_for(
                jobs,
                WaitEventModel::Exited(pid),
            ) == ReportModel::Out("["@ + decimal(#[trigger] jobs[k].job_num as nat) + "]+ done "@ + jobs[k].cmd_line),
        keeps_waiting(WaitEventModel::Exited(pid)),
        forall|k: int| 0 <= k < jobs_after(jobs, WaitEventModel::Exited(pid)).len() ==>
            #[trigger] jobs_after(jobs, WaitEventModel::Exited(pid))[k].pid != pid,
        forall|k: int| 0 <= k < jobs.len() && jobs[k].pid != pid ==> jobs_after(jobs, WaitEventModel::Exited(pid)).contains(
            #[trigger] jobs[k],
        ),
{
    lemma_without_pid_removes(jobs, pid);
    law_find_job(jobs, pid);
    assert forall|k: int|
        0 <= k < jobs.len() && jobs[k].pid == pid && (forall|m: int| 0 <= m < k ==> jobs[m].pid != pid) implies report_for(
            jobs,
            WaitEventModel::Exited(pid),
        ) == ReportModel::Out("["@ + decimal(#[trigger] jobs[k].job_num as nat) + "]+ done "@ + jobs[k].cmd_line) by {
        let j = find_job(jobs, pid)->Some_0;
        let k2 = choose|k2: int|
            0 <= k2 < jobs.len() && #[trigger] jobs[k2] == j && j.pid == pid && forall|m: int| 0 <= m < k2 ==> jobs[m].pid != pid;
        if k2 < k {
            assert(jobs[k2].pid != pid);
        } else if k < k2 {
            assert(jobs[k].pid != pid);
        }
    }
}

/// Waiting stops exactly when no child changed state, none is left, or
/// waiting failed; those events leave the job table as it is.
pub proof fn law_wait_stops(jobs: Seq<JobModel>, e: WaitEventModel)
    ensures
        keeps_waiting(e) == !(e is StillAlive || e is NoChildren || e is Failed),
        !(e is Exited || e is Signaled) ==> jobs_after(jobs, e) == jobs,
{
}

} // verus!

verus! {

/// The other events' reports: a failure is told on the error stream with
/// its description, a stop or continue is told, and nothing is said when no
/// child changed state or none is left.
pub proof fn law_other_reports(jobs: Seq<JobModel>, err: Seq<char>)
    ensures
        report_for(jobs, WaitEventModel::Failed(err)) == ReportModel::Error("Error waiting for child process: "@ + err),
        report_for(jobs, WaitEventModel::Other) == ReportModel::Out("Other state change occurred (Stopped/Continued)."@),
        report_for(jobs, WaitEventModel::StillAlive) == ReportModel::Silent,
        report_for(jobs, WaitEventModel::NoChildren) == ReportModel::Silent,
{
}

} // verus!

verus! {

/// A report's model keeps its stream and its text; an event's model keeps
/// its kind, process id and text.
pub proof fn law_report_and_event_models(s: String, pid: i32)
    ensures
        report_model(Report::Out(s)) == ReportModel::Out(s@),
        report_model(Report::Error(s)) == ReportModel::Error(s@),
        report_model(Report::Silent) == ReportModel::Silent,
        wait_event_model(WaitEvent::Exited(pid)) == WaitEventModel::Exited(pid),
        wait_event_model(WaitEvent::Signaled(pid, s)) == WaitEventModel::Signaled(pid, s@),
        wait_event_model(WaitEvent::StillAlive) == WaitEventModel::StillAlive,
        wait_event_model(WaitEvent::NoChildren) == WaitEventModel::NoChildren,
        wait_event_model(WaitEvent::Failed(s)) == WaitEventModel::Failed(s@),
        wait_event_model(WaitEvent::Other) == WaitEventModel::Other,
{
}

} // verus!
