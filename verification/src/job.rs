//! Jobs: the processes of one pipeline, and the table of the jobs that are
//! not over.

use vstd::prelude::*;

verus! {

/// The terminal settings that `nix` reads and sets. The library only keeps
/// them for a stopped job.
#[verifier::external_type_specification]
#[verifier::external_body]
pub struct ExTermios(nix::sys::termios::Termios);

/// One process of a job. It has a status once it has exited or was killed.
#[derive(Debug, Clone, Copy)]
pub struct Process {
    pub pid: i32,
    pub stopped: bool,
    pub status: Option<i32>,
}

impl Process {
    pub open spec fn completed(self) -> bool {
        self.status is Some
    }

    pub fn is_completed(&self) -> (r: bool)
        ensures
            r == self.completed(),
    {
        self.status.is_some()
    }
}

/// What the system reports of a child.
#[derive(Debug, Clone, Copy)]
pub enum WaitEvent {
    /// The process has exited with a status.
    Exited { pid: i32, status: i32 },
    /// The process was killed by a signal.
    Signaled { pid: i32, signal: u8 },
    /// The process was stopped by a signal.
    Stopped { pid: i32, signal: u8 },
}

impl WaitEvent {
    pub open spec fn pid(self) -> i32 {
        match self {
            WaitEvent::Exited { pid, .. } => pid,
            WaitEvent::Signaled { pid, .. } => pid,
            WaitEvent::Stopped { pid, .. } => pid,
        }
    }

    /// The status that the event leaves with the job: the exit status, or
    /// 128 and the signal's number.
    pub open spec fn status(self) -> i32 {
        match self {
            WaitEvent::Exited { status, .. } => status,
            WaitEvent::Signaled { signal, .. } => (128 + signal) as i32,
            WaitEvent::Stopped { signal, .. } => (128 + signal) as i32,
        }
    }

    /// The process after the event.
    pub open spec fn mark(self, p: Process) -> Process {
        match self {
            WaitEvent::Stopped { .. } => Process { stopped: true, ..p },
            _ => Process { status: Some(self.status()), ..p },
        }
    }
}

pub struct Job {
    interactive: bool,
    pgid: Option<i32>,
    members: Vec<Process>,
    last_status: Option<i32>,
    saved_termios: Option<nix::sys::termios::Termios>,
}

/// A job: whether it belongs to the interactive shell, its process group
/// once it has one, its processes, the last status seen of one of them, and
/// the terminal settings kept for it, if any.
pub struct JobView {
    pub interactive: bool,
    pub pgid: Option<i32>,
    pub members: Seq<Process>,
    pub last_status: Option<i32>,
    pub saved: Option<nix::sys::termios::Termios>,
}

/// Every process has a final status.
pub open spec fn all_completed(members: Seq<Process>) -> bool {
    forall|i: int| 0 <= i < members.len() ==> (#[trigger] members[i]).completed()
}

/// No process is running: each has a final status or is stopped.
pub open spec fn none_running(members: Seq<Process>) -> bool {
    forall|i: int| 0 <= i < members.len() ==> (#[trigger] members[i]).completed() || members[i].stopped
}

/// No process is running, and at least one is stopped and not over.
pub open spec fn job_stopped(members: Seq<Process>) -> bool {
    none_running(members) && exists|i: int|
        0 <= i < members.len() && (#[trigger] members[i]).stopped && !members[i].completed()
}

/// The index of the first process with a pid.
pub open spec fn member_index(members: Seq<Process>, pid: i32) -> Option<int>
    decreases members.len(),
{
    if members.len() == 0 {
        None
    } else {
        match member_index(members.drop_last(), pid) {
            Some(i) => Some(i),
            None => if members.last().pid == pid {
                Some(members.len() - 1)
            } else {
                None
            },
        }
    }
}

/// `member_index` gives the first index with that pid, and none only where
/// no process has it.
pub proof fn lemma_member_index(members: Seq<Process>, pid: i32)
    ensures
        match member_index(members, pid) {
            Some(i) => 0 <= i < members.len() && members[i].pid == pid && forall|k: int|
                0 <= k < i ==> (#[trigger] members[k]).pid != pid,
            None => forall|k: int| 0 <= k < members.len() ==> (#[trigger] members[k]).pid != pid,
        },
    decreases members.len(),
{
    if members.len() > 0 {
        lemma_member_index(members.drop_last(), pid);
        match member_index(members.drop_last(), pid) {
            Some(i) => {
                assert(members.drop_last()[i] == members[i]);
                assert forall|k: int| 0 <= k < i implies (#[trigger] members[k]).pid != pid by {
                    assert(members.drop_last()[k] == members[k]);
                }
            },
            None => {
                assert forall|k: int| 0 <= k < members.len() - 1 implies (
                #[trigger] members[k]).pid != pid by {
                    assert(members.drop_last()[k] == members[k]);
                }
            },
        }
    }
}

impl View for Job {
    type V = JobView;

    closed spec fn view(&self) -> JobView {
        JobView {
            interactive: self.interactive,
            pgid: self.pgid,
            members: self.members@,
            last_status: self.last_status,
            saved: self.saved_termios,
        }
    }
}

fn find_member(members: &Vec<Process>, pid: i32) -> (r: Option<usize>)
    ensures
        match r {
            Some(i) => i < members@.len() && member_index(members@, pid) == Some(i as int),
            None => member_index(members@, pid) is None,
        },
{
    let mut i: usize = 0;
    assert(members@.take(0) =~= seq![]);
    while i < members.len()
        invariant
            i <= members.len(),
            member_index(members@.take(i as int), pid) is None,
        decreases members.len() - i,
    {
        assert(members@.take(i + 1).drop_last() =~= members@.take(i as int));
        if members[i].pid == pid {
            proof {
                lemma_first_member(members@, pid, i as int);
            }
            return Some(i);
        }
        i += 1;
    }
    assert(members@.take(i as int) =~= members@);
    None
}

proof fn lemma_first_member(members: Seq<Process>, pid: i32, i: int)
    requires
        0 <= i < members.len(),
        members[i].pid == pid,
        member_index(members.take(i), pid) is None,
    ensures
        member_index(members, pid) == Some(i),
    decreases members.len(),
{
    if i == members.len() - 1 {
        assert(members.drop_last() =~= members.take(i));
    } else {
        assert(members.drop_last().take(i) =~= members.take(i));
        lemma_first_member(members.drop_last(), pid, i);
    }
}

impl Job {
    /// A job without processes. One of the interactive shell gets its
    /// process group from its first process; another one runs in the shell's
    /// own group.
    pub fn new(interactive: bool, shell_pgid: i32) -> (r: Self)
        ensures
            r@ == (JobView {
                interactive,
                pgid: if interactive {
                    None
                } else {
                    Some(shell_pgid)
                },
                members: seq![],
                last_status: None,
                saved: None,
            }),
    {
        Job {
            interactive,
            pgid: if interactive {
                None
            } else {
                Some(shell_pgid)
            },
            members: Vec::new(),
            last_status: None,
            saved_termios: None,
        }
    }

    pub fn interactive(&self) -> (r: bool)
        ensures
            r == self@.interactive,
    {
        self.interactive
    }

    pub fn pgid(&self) -> (r: Option<i32>)
        ensures
            r == self@.pgid,
    {
        self.pgid
    }

    pub fn last_status(&self) -> (r: Option<i32>)
        ensures
            r == self@.last_status,
    {
        self.last_status
    }

    /// Whether every process has a final status.
    pub fn is_completed(&self) -> (r: bool)
        ensures
            r == all_completed(self@.members),
    {
        let mut i: usize = 0;
        while i < self.members.len()
            invariant
                i <= self.members.len(),
                forall|k: int| 0 <= k < i ==> (#[trigger] self.members@[k]).completed(),
            decreases self.members.len() - i,
        {
            if !self.members[i].is_completed() {
                return false;
            }
            i += 1;
        }
        true
    }

    /// Whether no process is running and at least one is stopped and not
    /// over.
    pub fn is_stopped(&self) -> (r: bool)
        ensures
            r == job_stopped(self@.members),
    {
        let mut i: usize = 0;
        let mut any = false;
        while i < self.members.len()
            invariant
                i <= self.members.len(),
                forall|k: int|
                    0 <= k < i ==> (#[trigger] self.members@[k]).completed()
                        || self.members@[k].stopped,
                any == exists|k: int|
                    0 <= k < i && (#[trigger] self.members@[k]).stopped
                        && !self.members@[k].completed(),
            decreases self.members.len() - i,
        {
            let p = self.members[i];
            if !p.is_completed() && !p.stopped {
                return false;
            }
            if p.stopped && !p.is_completed() {
                any = true;
            }
            i += 1;
        }
        any
    }

    /// The process group that a child of this job joins: the job's, or a new
    /// one of the child's own.
    pub fn group_for(&self, pid: i32) -> (r: i32)
        ensures
            r == match self@.pgid {
                Some(g) => g,
                None => pid,
            },
    {
        match self.pgid {
            Some(g) => g,
            None => pid,
        }
    }

    /// Takes a child into the job: a running process. The first child's pid
    /// becomes the process group of a job that has none.
    pub fn add_process(&mut self, child: i32)
        ensures
            final(self)@ == (JobView {
                pgid: Some(
                    match old(self)@.pgid {
                        Some(g) => g,
                        None => child,
                    },
                ),
                members: match member_index(old(self)@.members, child) {
                    Some(i) => old(self)@.members.update(
                        i,
                        Process { pid: child, stopped: false, status: None },
                    ),
                    None => old(self)@.members.push(
                        Process { pid: child, stopped: false, status: None },
                    ),
                },
                ..old(self)@
            }),
    {
        let process = Process { pid: child, stopped: false, status: None };
        self.pgid = Some(self.group_for(child));
        match find_member(&self.members, child) {
            Some(i) => {
                self.members[i] = process;
            },
            None => {
                self.members.push(process);
            },
        }
    }

    /// Notes what a builtin returned: the job runs in the shell's group
    /// unless it has one, and the status is its last.
    pub fn finish_builtin(&mut self, status: i32, shell_pgid: i32)
        ensures
            final(self)@ == (JobView {
                pgid: Some(
                    match old(self)@.pgid {
                        Some(g) => g,
                        None => shell_pgid,
                    },
                ),
                last_status: Some(status),
                ..old(self)@
            }),
    {
        self.pgid = Some(self.group_for(shell_pgid));
        self.last_status = Some(status);
    }

    fn mark(&mut self, event: WaitEvent) -> (found: bool)
        ensures
            match member_index(old(self)@.members, event.pid()) {
                Some(i) => found && final(self)@ == (JobView {
                    members: old(self)@.members.update(i, event.mark(old(self)@.members[i])),
                    last_status: Some(event.status()),
                    ..old(self)@
                }),
                None => !found && final(self)@ == old(self)@,
            },
    {
        let (pid, status, stop) = match event {
            WaitEvent::Exited { pid, status } => (pid, status, false),
            WaitEvent::Signaled { pid, signal } => (pid, 128 + signal as i32, false),
            WaitEvent::Stopped { pid, signal } => (pid, 128 + signal as i32, true),
        };
        match find_member(&self.members, pid) {
            Some(i) => {
                if stop {
                    self.members[i].stopped = true;
                } else {
                    self.members[i].status = Some(status);
                }
                self.last_status = Some(status);
                assert(self.members@ =~= old(self)@.members.update(
                    i as int,
                    event.mark(old(self)@.members[i as int]),
                ));
                true
            },
            None => false,
        }
    }

    fn resume(&mut self)
        ensures
            final(self)@.members.len() == old(self)@.members.len(),
            forall|i: int|
                0 <= i < old(self)@.members.len() ==> #[trigger] final(self)@.members[i] == (Process {
                    stopped: false,
                    ..old(self)@.members[i]
                }),
            final(self)@.interactive == old(self)@.interactive,
            final(self)@.pgid == old(self)@.pgid,
            final(self)@.last_status == old(self)@.last_status,
            final(self)@.saved == old(self)@.saved,
    {
        let mut i: usize = 0;
        while i < self.members.len()
            invariant
                i <= self.members.len(),
                self.members@.len() == old(self).members@.len(),
                self.interactive == old(self).interactive,
                self.pgid == old(self).pgid,
                self.last_status == old(self).last_status,
                self.saved_termios == old(self).saved_termios,
                forall|k: int|
                    0 <= k < i ==> #[trigger] self.members@[k] == (Process {
                        stopped: false,
                        ..old(self).members@[k]
                    }),
                forall|k: int|
                    i <= k < self.members@.len() ==> #[trigger] self.members@[k] == old(
                        self,
                    ).members@[k],
            decreases self.members.len() - i,
        {
            self.members[i].stopped = false;
            i += 1;
        }
    }
}

/// What to do after a look at a job that is waited for.
#[derive(Debug, Clone, Copy, PartialEq, Eq)]
pub enum WaitOutcome {
    /// A process of the job is still running: wait for the next event.
    Wait,
    /// The job is over or stopped, with this status.
    Done(i32),
    /// The table does not know the job, or the job has no status: the
    /// bookkeeping is broken.
    Broken,
}

/// The jobs that are not over, by process group.
pub struct JobTable {
    jobs: Vec<Job>,
}

/// The views of a sequence of jobs.
pub open spec fn job_views(jobs: Seq<Job>) -> Seq<JobView> {
    jobs.map_values(|j: Job| j@)
}

/// The index of the first job of a process group.
pub open spec fn job_index(jobs: Seq<JobView>, pgid: i32) -> Option<int>
    decreases jobs.len(),
{
    if jobs.len() == 0 {
        None
    } else {
        match job_index(jobs.drop_last(), pgid) {
            Some(i) => Some(i),
            None => if jobs.last().pgid == Some(pgid) {
                Some(jobs.len() - 1)
            } else {
                None
            },
        }
    }
}

/// The index of the first job that has a process with a pid.
pub open spec fn owner_index(jobs: Seq<JobView>, pid: i32) -> Option<int>
    decreases jobs.len(),
{
    if jobs.len() == 0 {
        None
    } else {
        match owner_index(jobs.drop_last(), pid) {
            Some(i) => Some(i),
            None => if member_index(jobs.last().members, pid) is Some {
                Some(jobs.len() - 1)
            } else {
                None
            },
        }
    }
}

/// The index of the first job that is stopped.
pub open spec fn stopped_index(jobs: Seq<JobView>) -> Option<int>
    decreases jobs.len(),
{
    if jobs.len() == 0 {
        None
    } else {
        match stopped_index(jobs.drop_last()) {
            Some(i) => Some(i),
            None => if job_stopped(jobs.last().members) {
                Some(jobs.len() - 1)
            } else {
                None
            },
        }
    }
}

proof fn lemma_first_job(jobs: Seq<JobView>, pgid: i32, i: int)
    requires
        0 <= i < jobs.len(),
        jobs[i].pgid == Some(pgid),
        job_index(jobs.take(i), pgid) is None,
    ensures
        job_index(jobs, pgid) == Some(i),
    decreases jobs.len(),
{
    if i == jobs.len() - 1 {
        assert(jobs.drop_last() =~= jobs.take(i));
    } else {
        assert(jobs.drop_last().take(i) =~= jobs.take(i));
        lemma_first_job(jobs.drop_last(), pgid, i);
    }
}

proof fn lemma_first_owner(jobs: Seq<JobView>, pid: i32, i: int)
    requires
        0 <= i < jobs.len(),
        member_index(jobs[i].members, pid) is Some,
        owner_index(jobs.take(i), pid) is None,
    ensures
        owner_index(jobs, pid) == Some(i),
    decreases jobs.len(),
{
    if i == jobs.len() - 1 {
        assert(jobs.drop_last() =~= jobs.take(i));
    } else {
        assert(jobs.drop_last().take(i) =~= jobs.take(i));
        lemma_first_owner(jobs.drop_last(), pid, i);
    }
}

proof fn lemma_first_stopped(jobs: Seq<JobView>, i: int)
    requires
        0 <= i < jobs.len(),
        job_stopped(jobs[i].members),
        stopped_index(jobs.take(i)) is None,
    ensures
        stopped_index(jobs) == Some(i),
    decreases jobs.len(),
{
    if i == jobs.len() - 1 {
        assert(jobs.drop_last() =~= jobs.take(i));
    } else {
        assert(jobs.drop_last().take(i) =~= jobs.take(i));
        lemma_first_stopped(jobs.drop_last(), i);
    }
}

/// No two jobs of the table have the same process group, and each has one.
pub open spec fn distinct_groups(jobs: Seq<JobView>) -> bool {
    &&& forall|i: int| 0 <= i < jobs.len() ==> (#[trigger] jobs[i]).pgid is Some
    &&& forall|i: int, j: int|
        0 <= i < j < jobs.len() ==> (#[trigger] jobs[i]).pgid != (#[trigger] jobs[j]).pgid
}

/// A table whose jobs have the process groups of a table without doubles has
/// none either.
pub proof fn lemma_same_groups(a: Seq<JobView>, b: Seq<JobView>)
    requires
        distinct_groups(a),
        a.len() == b.len(),
        forall|i: int| 0 <= i < a.len() ==> (#[trigger] a[i]).pgid == b[i].pgid,
    ensures
        distinct_groups(b),
{
    assert forall|i: int| 0 <= i < b.len() implies (#[trigger] b[i]).pgid is Some by {
        assert(a[i].pgid is Some);
    }
    assert forall|i: int, j: int| 0 <= i < j < b.len() implies (#[trigger] b[i]).pgid != (
    #[trigger] b[j]).pgid by {
        assert(a[i].pgid != a[j].pgid);
    }
}

/// What a look at the job of a process group gives, and the table after it:
/// a job in which nothing runs is done, and is taken out if it is over.
pub open spec fn polled(jobs: Seq<JobView>, pgid: i32) -> (Seq<JobView>, WaitOutcome) {
    match job_index(jobs, pgid) {
        None => (jobs, WaitOutcome::Broken),
        Some(i) => {
            let job = jobs[i];
            if none_running(job.members) {
                match job.last_status {
                    Some(s) => (
                        if all_completed(job.members) {
                            jobs.remove(i)
                        } else {
                            jobs
                        },
                        WaitOutcome::Done(s),
                    ),
                    None => (jobs, WaitOutcome::Broken),
                }
            } else {
                (jobs, WaitOutcome::Wait)
            }
        },
    }
}

/// The table after an event: the first job that has the process takes note
/// of it. `None` where no job has the process.
pub open spec fn marked(jobs: Seq<JobView>, event: WaitEvent) -> Option<Seq<JobView>> {
    match owner_index(jobs, event.pid()) {
        Some(i) => {
            let job = jobs[i];
            let k = member_index(job.members, event.pid())->0;
            Some(
                jobs.update(
                    i,
                    JobView {
                        members: job.members.update(k, event.mark(job.members[k])),
                        last_status: Some(event.status()),
                        ..job
                    },
                ),
            )
        },
        None => None,
    }
}

/// A job that is over has a final status for every process; a stopped job
/// has a stopped process and none that runs.
pub proof fn lemma_job_states(members: Seq<Process>)
    ensures
        all_completed(members) ==> forall|i: int|
            0 <= i < members.len() ==> (#[trigger] members[i]).status is Some,
        job_stopped(members) ==> (exists|i: int| 0 <= i < members.len() && (#[trigger] members[i]).stopped)
            && forall|i: int|
            0 <= i < members.len() ==> (#[trigger] members[i]).stopped || members[i].status is Some,
{
    if job_stopped(members) {
        let i = choose|i: int|
            0 <= i < members.len() && (#[trigger] members[i]).stopped && !members[i].completed();
        assert(members[i].stopped);
    }
}

/// After a look that says the job is done, the job is gone from the table
/// or it is stopped.
pub proof fn lemma_done_is_gone_or_stopped(jobs: Seq<JobView>, pgid: i32)
    requires
        distinct_groups(jobs),
        polled(jobs, pgid).1 is Done,
    ensures
        distinct_groups(polled(jobs, pgid).0),
        match job_index(polled(jobs, pgid).0, pgid) {
            Some(i) => job_stopped(polled(jobs, pgid).0[i].members),
            None => true,
        },
{
    lemma_polled_distinct(jobs, pgid);
    let i = job_index(jobs, pgid)->0;
    lemma_job_index(jobs, pgid);
    let job = jobs[i];
    let after = polled(jobs, pgid).0;
    lemma_job_index(after, pgid);
    if all_completed(job.members) {
        if job_index(after, pgid) is Some {
            let j = job_index(after, pgid)->0;
            let j0 = if j < i { j } else { j + 1 };
            assert(after[j] == jobs[j0]);
            assert(jobs[j0].pgid == Some(pgid));
            assert(jobs[i].pgid == Some(pgid));
            if j0 < i {
                assert(jobs[j0].pgid != jobs[i].pgid);
            } else {
                assert(jobs[i].pgid != jobs[j0].pgid);
            }
            assert(false);
        }
    } else {
        assert(job_index(after, pgid) == Some(i));
        let k = choose|k: int| 0 <= k < job.members.len() && !(#[trigger] job.members[k]).completed();
        assert(job.members[k].stopped);
    }
}

/// A look at a job leaves the table without doubles.
pub proof fn lemma_polled_distinct(jobs: Seq<JobView>, pgid: i32)
    requires
        distinct_groups(jobs),
    ensures
        distinct_groups(polled(jobs, pgid).0),
{
    let after = polled(jobs, pgid).0;
    if after != jobs {
        let i = job_index(jobs, pgid)->0;
        lemma_job_index(jobs, pgid);
        assert(after == jobs.remove(i));
        assert forall|a: int| 0 <= a < after.len() implies (#[trigger] after[a]).pgid is Some by {
            let a0 = if a < i { a } else { a + 1 };
            assert(after[a] == jobs[a0]);
        }
        assert forall|a: int, b: int| 0 <= a < b < after.len() implies (#[trigger] after[a]).pgid
            != (#[trigger] after[b]).pgid by {
            let a0 = if a < i { a } else { a + 1 };
            let b0 = if b < i { b } else { b + 1 };
            assert(after[a] == jobs[a0]);
            assert(after[b] == jobs[b0]);
            assert(jobs[a0].pgid != jobs[b0].pgid);
        }
    }
}

/// The table with a job put in, in place of one of the same process group.
pub open spec fn inserted(jobs: Seq<JobView>, job: JobView) -> Seq<JobView> {
    match job.pgid {
        Some(g) => match job_index(jobs, g) {
            Some(i) => jobs.update(i, job),
            None => jobs.push(job),
        },
        None => jobs,
    }
}

/// Putting a job in leaves the table without doubles.
pub proof fn lemma_inserted_distinct(jobs: Seq<JobView>, job: JobView)
    requires
        distinct_groups(jobs),
    ensures
        distinct_groups(inserted(jobs, job)),
{
    if job.pgid is Some {
        let g = job.pgid->0;
        lemma_job_index(jobs, g);
        let after = inserted(jobs, job);
        match job_index(jobs, g) {
            Some(i) => {
                lemma_same_groups(jobs, after);
            },
            None => {
                assert forall|a: int| 0 <= a < after.len() implies (#[trigger] after[a]).pgid
                    is Some by {
                    if a < jobs.len() {
                        assert(after[a] == jobs[a]);
                    }
                }
                assert forall|a: int, b: int| 0 <= a < b < after.len() implies (
                #[trigger] after[a]).pgid != (#[trigger] after[b]).pgid by {
                    assert(after[a] == jobs[a]);
                    if b < jobs.len() {
                        assert(after[b] == jobs[b]);
                        assert(jobs[a].pgid != jobs[b].pgid);
                    } else {
                        assert(jobs[a].pgid != Some(g));
                    }
                }
            },
        }
    }
}

/// An event leaves the table without doubles.
pub proof fn lemma_marked_distinct(jobs: Seq<JobView>, event: WaitEvent)
    requires
        distinct_groups(jobs),
        marked(jobs, event) is Some,
    ensures
        distinct_groups(marked(jobs, event)->0),
{
    lemma_owner_index(jobs, event.pid());
    lemma_same_groups(jobs, marked(jobs, event)->0);
}

/// `owner_index` gives an index of the table.
pub proof fn lemma_owner_index(jobs: Seq<JobView>, pid: i32)
    ensures
        match owner_index(jobs, pid) {
            Some(i) => 0 <= i < jobs.len(),
            None => true,
        },
    decreases jobs.len(),
{
    if jobs.len() > 0 {
        lemma_owner_index(jobs.drop_last(), pid);
    }
}

/// `job_index` gives the first index with that process group, and none only
/// where no job has it.
pub proof fn lemma_job_index(jobs: Seq<JobView>, pgid: i32)
    ensures
        match job_index(jobs, pgid) {
            Some(i) => 0 <= i < jobs.len() && jobs[i].pgid == Some(pgid) && forall|k: int|
                0 <= k < i ==> (#[trigger] jobs[k]).pgid != Some(pgid),
            None => forall|k: int| 0 <= k < jobs.len() ==> (#[trigger] jobs[k]).pgid != Some(pgid),
        },
    decreases jobs.len(),
{
    if jobs.len() > 0 {
        lemma_job_index(jobs.drop_last(), pgid);
        match job_index(jobs.drop_last(), pgid) {
            Some(i) => {
                assert(jobs.drop_last()[i] == jobs[i]);
                assert forall|k: int| 0 <= k < i implies (#[trigger] jobs[k]).pgid != Some(
                    pgid,
                ) by {
                    assert(jobs.drop_last()[k] == jobs[k]);
                }
            },
            None => {
                assert forall|k: int| 0 <= k < jobs.len() - 1 implies (#[trigger] jobs[k]).pgid
                    != Some(pgid) by {
                    assert(jobs.drop_last()[k] == jobs[k]);
                }
            },
        }
    }
}

impl View for JobTable {
    type V = Seq<JobView>;

    closed spec fn view(&self) -> Seq<JobView> {
        job_views(self.jobs@)
    }
}

impl JobTable {
    /// No two jobs have the same process group, and each has one.
    pub open spec fn wf(&self) -> bool {
        distinct_groups(self@)
    }

    pub fn new() -> (r: Self)
        ensures
            r.wf(),
            r@ == Seq::<JobView>::empty(),
    {
        let r = JobTable { jobs: Vec::new() };
        assert(r@ =~= Seq::<JobView>::empty());
        r
    }

    pub fn len(&self) -> (r: usize)
        ensures
            r == self@.len(),
    {
        self.jobs.len()
    }

    pub fn is_empty(&self) -> (r: bool)
        ensures
            r == (self@.len() == 0),
    {
        self.jobs.len() == 0
    }

    /// The process group of the job at an index.
    pub fn pgid_at(&self, i: usize) -> (r: Option<i32>)
        requires
            i < self@.len(),
        ensures
            r == self@[i as int].pgid,
    {
        self.jobs[i].pgid
    }

    fn find(&self, pgid: i32) -> (r: Option<usize>)
        ensures
            match r {
                Some(i) => i < self@.len() && job_index(self@, pgid) == Some(i as int),
                None => job_index(self@, pgid) is None,
            },
    {
        let mut i: usize = 0;
        assert(self@.take(0) =~= seq![]);
        while i < self.jobs.len()
            invariant
                i <= self.jobs.len(),
                self@.len() == self.jobs@.len(),
                job_index(self@.take(i as int), pgid) is None,
            decreases self.jobs.len() - i,
        {
            assert(self@.take(i + 1).drop_last() =~= self@.take(i as int));
            assert(self@[i as int] == self.jobs@[i as int]@);
            let found = match self.jobs[i].pgid {
                Some(g) => g == pgid,
                None => false,
            };
            if found {
                proof {
                    lemma_first_job(self@, pgid, i as int);
                }
                return Some(i);
            }
            i += 1;
        }
        assert(self@.take(i as int) =~= self@);
        None
    }

    /// Whether the table has a job of the process group.
    pub fn contains(&self, pgid: i32) -> (r: bool)
        ensures
            r == (job_index(self@, pgid) is Some),
    {
        self.find(pgid).is_some()
    }

    /// Puts a job into the table, in place of one of the same process
    /// group. A job without a process group is handed back.
    pub fn insert(&mut self, job: Job) -> (r: Result<i32, Job>)
        ensures
            final(self)@ == inserted(old(self)@, job@),
            match job@.pgid {
                Some(g) => r == Ok::<i32, Job>(g),
                None => r == Err::<i32, Job>(job),
            },
            old(self).wf() ==> final(self).wf(),
    {
        proof {
            if self.wf() {
                lemma_inserted_distinct(self@, job@);
            }
        }
        let pgid = match job.pgid {
            Some(g) => g,
            None => {
                return Err(job);
            },
        };
        match self.find(pgid) {
            Some(i) => {
                self.jobs[i] = job;
                assert(self@ =~= old(self)@.update(i as int, job@));
            },
            None => {
                self.jobs.push(job);
                assert(self@ =~= old(self)@.push(job@));
            },
        }
        Ok(pgid)
    }

    /// Notes an event with the job that has the process. Returns whether a
    /// job has it.
    pub fn mark_process_status(&mut self, event: WaitEvent) -> (found: bool)
        ensures
            match marked(old(self)@, event) {
                Some(jobs) => found && final(self)@ == jobs,
                None => !found && final(self)@ == old(self)@,
            },
            old(self).wf() ==> final(self).wf(),
    {
        proof {
            if self.wf() && marked(self@, event) is Some {
                lemma_marked_distinct(self@, event);
            }
        }
        let mut i: usize = 0;
        assert(self@.take(0) =~= seq![]);
        while i < self.jobs.len()
            invariant
                i <= self.jobs.len(),
                self@ == old(self)@,
                self@.len() == self.jobs@.len(),
                owner_index(self@.take(i as int), event.pid()) is None,
            decreases self.jobs.len() - i,
        {
            assert(self@.take(i + 1).drop_last() =~= self@.take(i as int));
            assert(self@[i as int] == self.jobs@[i as int]@);
            let ghost before = self@;
            if self.jobs[i].mark(event) {
                proof {
                    lemma_first_owner(before, event.pid(), i as int);
                    assert(self@ =~= before.update(i as int, self.jobs@[i as int]@));
                }
                return true;
            }
            assert(self@ =~= before);
            i += 1;
        }
        assert(self@.take(i as int) =~= self@);
        false
    }

    /// Looks at the job that is waited for.
    pub fn poll(&mut self, pgid: i32) -> (r: WaitOutcome)
        ensures
            final(self)@ == polled(old(self)@, pgid).0,
            r == polled(old(self)@, pgid).1,
            old(self).wf() ==> final(self).wf(),
            old(self).wf() && r is Done ==> match job_index(final(self)@, pgid) {
                Some(i) => job_stopped(final(self)@[i].members),
                None => true,
            },
    {
        proof {
            if self.wf() {
                lemma_polled_distinct(self@, pgid);
                if polled(self@, pgid).1 is Done {
                    lemma_done_is_gone_or_stopped(self@, pgid);
                }
            }
        }
        let i = match self.find(pgid) {
            Some(i) => i,
            None => {
                return WaitOutcome::Broken;
            },
        };
        assert(self@[i as int] == self.jobs@[i as int]@);
        let completed = self.jobs[i].is_completed();
        let stopped = self.jobs[i].is_stopped();
        proof {
            let m = self@[i as int].members;
            if none_running(m) && !all_completed(m) {
                let k = choose|k: int| 0 <= k < m.len() && !(#[trigger] m[k]).completed();
                assert(m[k].stopped);
            }
        }
        if completed || stopped {
            match self.jobs[i].last_status {
                Some(s) => {
                    if completed {
                        self.jobs.remove(i);
                        assert(self@ =~= old(self)@.remove(i as int));
                    }
                    WaitOutcome::Done(s)
                },
                None => WaitOutcome::Broken,
            }
        } else {
            WaitOutcome::Wait
        }
    }

    /// The process group of the first stopped job.
    pub fn first_stopped(&self) -> (r: Option<i32>)
        ensures
            match stopped_index(self@) {
                Some(i) => r == self@[i].pgid,
                None => r is None,
            },
    {
        let mut i: usize = 0;
        assert(self@.take(0) =~= seq![]);
        while i < self.jobs.len()
            invariant
                i <= self.jobs.len(),
                self@.len() == self.jobs@.len(),
                stopped_index(self@.take(i as int)) is None,
            decreases self.jobs.len() - i,
        {
            assert(self@.take(i + 1).drop_last() =~= self@.take(i as int));
            assert(self@[i as int] == self.jobs@[i as int]@);
            if self.jobs[i].is_stopped() {
                proof {
                    lemma_first_stopped(self@, i as int);
                }
                return self.jobs[i].pgid;
            }
            i += 1;
        }
        assert(self@.take(i as int) =~= self@);
        None
    }

    /// Whether the job of a process group is there and stopped.
    pub fn is_stopped(&self, pgid: i32) -> (r: bool)
        ensures
            r == match job_index(self@, pgid) {
                Some(i) => job_stopped(self@[i].members),
                None => false,
            },
    {
        match self.find(pgid) {
            Some(i) => {
                assert(self@[i as int] == self.jobs@[i as int]@);
                self.jobs[i].is_stopped()
            },
            None => false,
        }
    }

    /// Keeps terminal settings for the job of a process group, in place of
    /// those kept before. Without such a job they are handed back.
    pub fn save_termios(&mut self, pgid: i32, settings: nix::sys::termios::Termios) -> (r: Option<
        nix::sys::termios::Termios,
    >)
        ensures
            match job_index(old(self)@, pgid) {
                Some(i) => r is None && final(self)@ == old(self)@.update(
                    i,
                    JobView { saved: Some(settings), ..old(self)@[i] },
                ),
                None => r == Some(settings) && final(self)@ == old(self)@,
            },
            old(self).wf() ==> final(self).wf(),
    {
        proof {
            if self.wf() && job_index(self@, pgid) is Some {
                lemma_job_index(self@, pgid);
                let i = job_index(self@, pgid)->0;
                lemma_same_groups(self@, self@.update(i, JobView { saved: Some(settings), ..self@[i] }));
            }
        }
        match self.find(pgid) {
            Some(i) => {
                assert(self@[i as int] == self.jobs@[i as int]@);
                self.jobs[i].saved_termios = Some(settings);
                assert(self@ =~= old(self)@.update(
                    i as int,
                    JobView { saved: Some(settings), ..old(self)@[i as int] },
                ));
                None
            },
            None => Some(settings),
        }
    }

    /// Takes the terminal settings kept for the job of a process group: those
    /// that were saved last, and the job keeps none.
    pub fn take_termios(&mut self, pgid: i32) -> (r: Option<nix::sys::termios::Termios>)
        ensures
            match job_index(old(self)@, pgid) {
                Some(i) => r == old(self)@[i].saved && final(self)@ == old(self)@.update(
                    i,
                    JobView { saved: None, ..old(self)@[i] },
                ),
                None => r is None && final(self)@ == old(self)@,
            },
            old(self).wf() ==> final(self).wf(),
    {
        proof {
            if self.wf() && job_index(self@, pgid) is Some {
                lemma_job_index(self@, pgid);
                let i = job_index(self@, pgid)->0;
                lemma_same_groups(self@, self@.update(i, JobView { saved: None, ..self@[i] }));
            }
        }
        match self.find(pgid) {
            Some(i) => {
                assert(self@[i as int] == self.jobs@[i as int]@);
                let r = self.jobs[i].saved_termios.take();
                assert(self@ =~= old(self)@.update(
                    i as int,
                    JobView { saved: None, ..old(self)@[i as int] },
                ));
                r
            },
            None => None,
        }
    }

    /// Marks every process of the job of a process group as not stopped.
    /// Returns whether there is such a job.
    pub fn resume(&mut self, pgid: i32) -> (found: bool)
        ensures
            found == (job_index(old(self)@, pgid) is Some),
            final(self)@.len() == old(self)@.len(),
            forall|i: int|
                0 <= i < old(self)@.len() && Some(i) != job_index(old(self)@, pgid)
                    ==> #[trigger] final(self)@[i] == old(self)@[i],
            match job_index(old(self)@, pgid) {
                Some(i) => {
                    let before = old(self)@[i];
                    let after = final(self)@[i];
                    &&& after.members.len() == before.members.len()
                    &&& forall|k: int|
                        0 <= k < before.members.len() ==> #[trigger] after.members[k] == (Process {
                            stopped: false,
                            ..before.members[k]
                        })
                    &&& after.pgid == before.pgid
                    &&& after.interactive == before.interactive
                    &&& after.last_status == before.last_status
                    &&& after.saved == before.saved
                },
                None => true,
            },
            old(self).wf() ==> final(self).wf(),
    {
        match self.find(pgid) {
            Some(i) => {
                assert(self@[i as int] == self.jobs@[i as int]@);
                self.jobs[i].resume();
                proof {
                    if old(self).wf() {
                        assert forall|k: int| 0 <= k < old(self)@.len() implies (
                        #[trigger] old(self)@[k]).pgid == self@[k].pgid by {
                            if k != i {
                                assert(self.jobs@[k] == old(self).jobs@[k]);
                            }
                        }
                        lemma_same_groups(old(self)@, self@);
                    }
                    assert forall|k: int|
                        0 <= k < old(self)@.len() && k != i implies #[trigger] self@[k] == old(
                        self,
                    )@[k] by {
                        assert(self.jobs@[k] == old(self).jobs@[k]);
                    }
                }
                true
            },
            None => false,
        }
    }
}

} // verus!
