//! Jobs: programs that run in the background, numbered and offered on the bus.

use vstd::prelude::*;

use crate::error::{bus_outcome, outcome, BusError, BusErrorView, Failure};
use crate::manager::root::JobRequest;
use crate::number::{decimal, decimal_of, law_decimal_injective, lemma_decimal_digits};
use crate::systemd::{check_object_path, object_path_complaint, path_char, valid_object_path};
use crate::text::{joined, same, texts};

verus! {

/// The object below which the jobs stand.
pub const JOB_PREFIX: &'static str = "/com/steampowered/SteamOSManager1/Jobs";

/// The object path of the job with number `n`.
pub open spec fn job_path(n: nat) -> Seq<char> {
    "/com/steampowered/SteamOSManager1/Jobs"@ + "/"@ + decimal(n)
}

/// The object path of the job with a given name.
pub open spec fn named_job_path(name: Seq<char>) -> Seq<char> {
    "/com/steampowered/SteamOSManager1/Jobs"@ + "/"@ + name
}

/// The name under which the job at `path` on the bus `guid` is mirrored.
pub open spec fn mirror_name(guid: Seq<char>, path: Seq<char>) -> Seq<char> {
    guid + ":"@ + path
}

/// A job of another connection that has been mirrored.
pub struct MirroredJob {
    /// Where the job stands: its bus and its path there.
    pub name: String,
    /// The path of its mirror.
    pub path: String,
}

/// What to do about a job that is to be mirrored.
#[derive(Debug)]
pub enum MirrorStep {
    /// Its mirror already stands at this path.
    Known(String),
    /// It has to be added, and its mirror remembered under this name.
    New(String),
}

/// A `MirrorStep` with its strings seen as text.
pub enum MirrorStepView {
    Known(Seq<char>),
    New(Seq<char>),
}

impl View for MirrorStep {
    type V = MirrorStepView;

    open spec fn view(&self) -> MirrorStepView {
        match self {
            MirrorStep::Known(path) => MirrorStepView::Known(path@),
            MirrorStep::New(name) => MirrorStepView::New(name@),
        }
    }
}

/// The mirrors in `jobs`, by name.
pub open spec fn mirrors(jobs: Seq<MirroredJob>) -> Map<Seq<char>, Seq<char>>
    decreases jobs.len(),
{
    if jobs.len() == 0 {
        Map::empty()
    } else {
        mirrors(jobs.drop_last()).insert(jobs.last().name@, jobs.last().path@)
    }
}

/// What to do about a job that is to be mirrored under `name`.
pub open spec fn mirror_step(
    mirrored: Map<Seq<char>, Seq<char>>,
    name: Seq<char>,
) -> MirrorStepView {
    if mirrored.contains_key(name) {
        MirrorStepView::Known(mirrored[name])
    } else {
        MirrorStepView::New(name)
    }
}

/// Numbers the jobs and remembers the mirrors.
pub struct JobManager {
    mirrored_jobs: Vec<MirroredJob>,
    next_job: u32,
}

impl JobManager {
    /// The number of the next job.
    pub closed spec fn next(&self) -> nat {
        self.next_job as nat
    }

    /// The paths of the mirrors, by name.
    pub closed spec fn mirrored(&self) -> Map<Seq<char>, Seq<char>> {
        mirrors(self.mirrored_jobs@)
    }

    /// No mirror is remembered under two paths.
    pub closed spec fn wf(&self) -> bool {
        forall|i: int, j: int|
            0 <= i < j < self.mirrored_jobs@.len() ==> self.mirrored_jobs@[i].name@
                != self.mirrored_jobs@[j].name@
    }

    /// A manager without jobs.
    pub fn new() -> (r: JobManager)
        ensures
            r.wf(),
            r.next() == 0,
            r.mirrored() == Map::<Seq<char>, Seq<char>>::empty(),
    {
        JobManager { mirrored_jobs: Vec::new(), next_job: 0 }
    }

    /// Gives a new job its path. Numbers count up from zero, whether or not the job can then
    /// be put on the bus.
    pub fn add_job(&mut self) -> (r: String)
        requires
            old(self).wf(),
            old(self).next() < u32::MAX,
        ensures
            final(self).wf(),
            r@ == job_path(old(self).next()),
            final(self).next() == old(self).next() + 1,
            final(self).mirrored() == old(self).mirrored(),
    {
        let prefix = joined(JOB_PREFIX, "/");
        let number = decimal_of(self.next_job as u64);
        let path = joined(prefix.as_str(), number.as_str());
        self.next_job = self.next_job + 1;
        path
    }

    /// Whether there are numbers left for another job.
    pub fn can_add_job(&self) -> (r: bool)
        ensures
            r == (self.next() < u32::MAX),
    {
        self.next_job < u32::MAX
    }

    /// What to do about the job at `path` on the bus `guid`. A path that is no object path is
    /// an error.
    pub fn mirror_job(&self, guid: &str, path: &str) -> (r: Result<MirrorStep, Failure>)
        requires
            self.wf(),
        ensures
            match r {
                Ok(step) => valid_object_path(path@) && step@ == mirror_step(
                    self.mirrored(),
                    mirror_name(guid@, path@),
                ),
                Err(e) => !valid_object_path(path@) && e@ == object_path_complaint(path@),
            },
    {
        match check_object_path(path) {
            Ok(_) => {},
            Err(message) => {
                return Err(Failure { message });
            },
        }
        let head = joined(guid, ":");
        let name = joined(head.as_str(), path);
        let mut i: usize = 0;
        while i < self.mirrored_jobs.len()
            invariant
                self.wf(),
                valid_object_path(path@),
                name@ == mirror_name(guid@, path@),
                i <= self.mirrored_jobs@.len(),
                forall|k: int| 0 <= k < i ==> self.mirrored_jobs@[k].name@ != name@,
            decreases self.mirrored_jobs.len() - i,
        {
            if same(self.mirrored_jobs[i].name.as_str(), name.as_str()) {
                proof {
                    lemma_mirrors_at(self.mirrored_jobs@, i as int);
                }
                return Ok(MirrorStep::Known(self.mirrored_jobs[i].path.clone()));
            }
            i += 1;
        }
        proof {
            lemma_mirrors_absent(self.mirrored_jobs@, name@);
        }
        Ok(MirrorStep::New(name))
    }

    /// Remembers that the mirror of `name` stands at `path`.
    pub fn mirrored_job(&mut self, name: String, path: String)
        requires
            old(self).wf(),
        ensures
            final(self).wf(),
            final(self).next() == old(self).next(),
            final(self).mirrored() == old(self).mirrored().insert(name@, path@),
    {
        let ghost before = self.mirrored_jobs@;
        let mut i: usize = 0;
        while i < self.mirrored_jobs.len()
            invariant
                self.wf(),
                self.mirrored_jobs@ == before,
                self.next() == old(self).next(),
                before == old(self).mirrored_jobs@,
                i <= self.mirrored_jobs@.len(),
                forall|k: int| 0 <= k < i ==> self.mirrored_jobs@[k].name@ != name@,
            decreases self.mirrored_jobs.len() - i,
        {
            if same(self.mirrored_jobs[i].name.as_str(), name.as_str()) {
                self.mirrored_jobs.remove(i);
                proof {
                    lemma_mirrors_remove(before, i as int);
                    let rest = self.mirrored_jobs@;
                    assert forall|k: int| 0 <= k < rest.len() implies rest[k].name@ != name@ by {
                        if k < i {
                            assert(rest[k] == before[k]);
                        } else {
                            assert(rest[k] == before[k + 1]);
                        }
                    }
                    assert(mirrors(rest).insert(name@, path@) =~= mirrors(before).insert(
                        name@,
                        path@,
                    ));
                }
                let ghost rest = self.mirrored_jobs@;
                self.mirrored_jobs.push(MirroredJob { name, path });
                assert(self.mirrored_jobs@.drop_last() =~= rest);
                return;
            }
            i += 1;
        }
        self.mirrored_jobs.push(MirroredJob { name, path });
        assert(self.mirrored_jobs@.drop_last() =~= before);
    }

    /// The paths of the jobs of another connection, by the introspection of the object below
    /// which its jobs stand.
    pub fn mirror_connection(introspection: &str) -> (r: Result<Vec<String>, Failure>)
        ensures
            match (r, introspected(introspection@)) {
                (Ok(paths), Ok(names)) => texts(paths@) == job_paths(names),
                (Err(a), Err(b)) => a@ == b,
                _ => false,
            },
    {
        match child_names(introspection) {
            Ok(names) => Ok(JobManager::jobs_of(&names)),
            Err(message) => Err(Failure { message }),
        }
    }

    /// The paths of the jobs with these names; an object without a name is passed over.
    pub fn jobs_of(names: &Vec<Option<String>>) -> (r: Vec<String>)
        ensures
            texts(r@) == job_paths(optional_texts(names@)),
    {
        let ghost all = optional_texts(names@);
        let mut r: Vec<String> = Vec::new();
        let mut i: usize = 0;
        assert(texts(r@) =~= seq![]);
        while i < names.len()
            invariant
                i <= names.len(),
                all == optional_texts(names@),
                texts(r@) == job_paths(all.take(i as int)),
            decreases names.len() - i,
        {
            let ghost done = texts(r@);
            assert(all.take(i + 1).drop_last() =~= all.take(i as int));
            if let Some(name) = &names[i] {
                let prefix = joined(JOB_PREFIX, "/");
                let path = joined(prefix.as_str(), name.as_str());
                r.push(path);
                assert(texts(r@) =~= done.push(path@));
            }
            i += 1;
        }
        assert(all.take(i as int) =~= all);
        r
    }
}

/// The texts that optional strings hold.
pub open spec fn optional_texts(v: Seq<Option<String>>) -> Seq<Option<Seq<char>>> {
    v.map_values(
        |t: Option<String>|
            match t {
                Some(t) => Some(t@),
                None => None,
            },
    )
}

/// The paths of the jobs with these names; an object without a name is passed over.
pub open spec fn job_paths(names: Seq<Option<Seq<char>>>) -> Seq<Seq<char>>
    decreases names.len(),
{
    if names.len() == 0 {
        seq![]
    } else {
        match names.last() {
            Some(name) => job_paths(names.drop_last()).push(named_job_path(name)),
            None => job_paths(names.drop_last()),
        }
    }
}

/// The names of the objects directly below the one that an introspection document describes,
/// or what is said of a text that is no such document.
pub uninterp spec fn introspected(document: Seq<char>) -> Result<
    Seq<Option<Seq<char>>>,
    Seq<char>,
>;

/// The names of the objects directly below the one that `document` describes, or what is said
/// of a text that is no such document.
///
/// Trusted: `zbus_xml::Node::from_reader` on the text, then `Node::nodes` and `Node::name` of
/// each of them. Whether the text is taken, the names and the words of the error depend on the
/// text alone.
#[verifier::external_body]
fn child_names(document: &str) -> (r: Result<Vec<Option<String>>, String>)
    ensures
        match (r, introspected(document@)) {
            (Ok(a), Ok(b)) => optional_texts(a@) == b,
            (Err(a), Err(b)) => a@ == b,
            _ => false,
        },
{
    match zbus_xml::Node::from_reader(std::io::Cursor::new(document)) {
        Ok(node) => Ok(node.nodes().iter().map(|n| n.name().map(String::from)).collect()),
        Err(e) => Err(e.to_string()),
    }
}

proof fn lemma_mirrors_absent(jobs: Seq<MirroredJob>, name: Seq<char>)
    requires
        forall|k: int| 0 <= k < jobs.len() ==> jobs[k].name@ != name,
    ensures
        !mirrors(jobs).contains_key(name),
    decreases jobs.len(),
{
    if jobs.len() > 0 {
        assert forall|k: int| 0 <= k < jobs.drop_last().len() implies jobs.drop_last()[k].name@
            != name by {
            assert(jobs.drop_last()[k] == jobs[k]);
        }
        lemma_mirrors_absent(jobs.drop_last(), name);
        assert(jobs[jobs.len() - 1].name@ != name);
    }
}

proof fn lemma_mirrors_at(jobs: Seq<MirroredJob>, i: int)
    requires
        0 <= i < jobs.len(),
        forall|a: int, b: int| 0 <= a < b < jobs.len() ==> jobs[a].name@ != jobs[b].name@,
    ensures
        mirrors(jobs).contains_key(jobs[i].name@),
        mirrors(jobs)[jobs[i].name@] == jobs[i].path@,
    decreases jobs.len(),
{
    if i < jobs.len() - 1 {
        lemma_mirrors_at(jobs.drop_last(), i);
    }
}

proof fn lemma_mirrors_remove(jobs: Seq<MirroredJob>, i: int)
    requires
        0 <= i < jobs.len(),
        forall|a: int, b: int| 0 <= a < b < jobs.len() ==> jobs[a].name@ != jobs[b].name@,
    ensures
        mirrors(jobs.remove(i)) == mirrors(jobs).remove(jobs[i].name@),
    decreases jobs.len(),
{
    let name = jobs[i].name@;
    let init = jobs.drop_last();
    if i == jobs.len() - 1 {
        assert(jobs.remove(i) =~= init);
        lemma_mirrors_absent(init, name);
        assert(mirrors(init) =~= mirrors(jobs).remove(name));
    } else {
        lemma_mirrors_remove(init, i);
        assert(jobs.remove(i).drop_last() =~= init.remove(i));
        assert(mirrors(jobs.remove(i)) =~= mirrors(jobs).remove(name));
    }
}

/// The path of every job is an object path.
pub proof fn law_job_path_valid(n: nat)
    ensures
        valid_object_path(job_path(n)),
{
    lemma_decimal_digits(n);
    reveal_strlit("/com/steampowered/SteamOSManager1/Jobs");
    reveal_strlit("/");
    let head = "/com/steampowered/SteamOSManager1/Jobs"@ + "/"@;
    let s = job_path(n);
    assert forall|k: int| 0 <= k < s.len() implies s[k] == '/' || path_char(#[trigger] s[k]) by {
        if k >= head.len() {
            assert(s[k] == decimal(n)[k - head.len()]);
        }
    }
    assert forall|k: int| 1 <= k < s.len() && #[trigger] s[k] == '/' implies s[k - 1] != '/' by {
        if k >= head.len() {
            assert(s[k] == decimal(n)[k - head.len()]);
        }
    }
    assert(s.last() == decimal(n).last());
}

/// Different jobs have different paths.
pub proof fn law_job_paths_differ(a: nat, b: nat)
    requires
        job_path(a) == job_path(b),
    ensures
        a == b,
{
    let head = "/com/steampowered/SteamOSManager1/Jobs"@ + "/"@;
    assert(decimal(a) =~= job_path(a).skip(head.len() as int));
    assert(decimal(b) =~= job_path(b).skip(head.len() as int));
    law_decimal_injective(a, b);
}

/// Once a job's mirror is remembered, mirroring it again gives the same path and adds nothing;
/// what is known of other jobs stays as it was.
pub proof fn law_mirror_once(
    mirrored: Map<Seq<char>, Seq<char>>,
    name: Seq<char>,
    path: Seq<char>,
    other: Seq<char>,
)
    ensures
        mirror_step(mirrored.insert(name, path), name) == MirrorStepView::Known(path),
        other != name ==> mirror_step(mirrored.insert(name, path), other) == mirror_step(
            mirrored,
            other,
        ),
{
}

/// Two jobs are mirrored under one name only if they are the same job on the same bus.
pub proof fn law_mirror_name_injective(
    guid: Seq<char>,
    path: Seq<char>,
    other_guid: Seq<char>,
    other_path: Seq<char>,
)
    requires
        valid_object_path(path),
        valid_object_path(other_path),
        mirror_name(guid, path) == mirror_name(other_guid, other_path),
    ensures
        guid == other_guid,
        path == other_path,
{
    reveal_strlit(":");
    let a = mirror_name(guid, path);
    let b = mirror_name(other_guid, other_path);
    let n = guid.len() as int;
    let m = other_guid.len() as int;
    assert(a.len() == n + 1 + path.len());
    assert(b.len() == m + 1 + other_path.len());
    assert(a[n] == ':');
    assert(b[m] == ':');
    assert(n == m) by {
        if n < m {
            let c = path[m - n - 1];
            assert(a[m] == c);
            assert(c == '/' || path_char(c));
        }
        if m < n {
            let c = other_path[n - m - 1];
            assert(b[n] == c);
            assert(c == '/' || path_char(c));
        }
    }
    assert(guid =~= a.take(n));
    assert(other_guid =~= b.take(n));
    assert(path =~= a.skip(n + 1));
    assert(other_path =~= b.skip(n + 1));
}

/// A signal that a job's process is sent.
#[derive(Clone, Copy, Debug, PartialEq, Eq, Structural)]
pub enum JobSignal {
    /// Stop for the time being.
    Stop,
    /// Go on.
    Cont,
    /// End at once.
    Kill,
    /// End.
    Term,
}

/// How a process ended.
#[derive(Clone, Copy, Debug, PartialEq, Eq, Structural)]
pub struct ProcessEnd {
    /// Its exit code, if it exited.
    pub code: Option<i32>,
    /// The signal that ended it, if one did.
    pub signal: Option<i32>,
}

impl ProcessEnd {
    /// The number of a signal can be negated.
    pub open spec fn wf(self) -> bool {
        self.signal is Some ==> self.signal->0 > i32::MIN
    }

    /// The exit code, or the number of the signal below zero.
    pub open spec fn exit_code(self) -> Option<int> {
        match (self.code, self.signal) {
            (Some(code), _) => Some(code as int),
            (None, Some(signal)) => Some(-signal),
            (None, None) => None,
        }
    }
}

/// A job: a process that can be paused, resumed, cancelled and waited for.
#[derive(Debug)]
pub struct Job {
    pub paused: bool,
    pub exit_code: Option<i32>,
}

/// The process to signal, by what is known of its number.
pub open spec fn signal_target(pid: Option<u32>) -> Result<i32, Seq<char>> {
    match pid {
        None => Err("Unable to get pid from command, it likely finished running"@),
        Some(pid) => if pid > i32::MAX {
            Err(
                "Unable to get pid_t from command "@
                    + "out of range integral type conversion attempted"@,
            )
        } else {
            Ok(pid as i32)
        },
    }
}

impl Job {
    /// The job of a process that was just started.
    pub fn spawn() -> (r: Job)
        ensures
            !r.paused,
            r.exit_code is None,
    {
        Job { paused: false, exit_code: None }
    }

    /// The process to signal, by what is known of its number.
    pub fn send_signal(pid: Option<u32>) -> (r: Result<i32, Failure>)
        ensures
            outcome(r) == signal_target(pid),
    {
        match pid {
            None => Err(
                Failure::new("Unable to get pid from command, it likely finished running"),
            ),
            Some(pid) => if pid > i32::MAX as u32 {
                Err(
                    Failure::with_detail(
                        "Unable to get pid_t from command ",
                        "out of range integral type conversion attempted",
                    ),
                )
            } else {
                Ok(pid as i32)
            },
        }
    }

    /// Remembers how the process ended.
    pub fn update_exit_code(&mut self, status: ProcessEnd) -> (r: Result<i32, Failure>)
        requires
            status.wf(),
        ensures
            match status.exit_code() {
                Some(code) => r is Ok && r->Ok_0 == code && final(self).exit_code == Some(
                    code as i32,
                ),
                None => outcome(r) == Err::<i32, Seq<char>>(
                    "Process exited without return code or signal"@,
                ) && final(self).exit_code == old(self).exit_code,
            },
            final(self).paused == old(self).paused,
    {
        if let Some(code) = status.code {
            self.exit_code = Some(code);
            Ok(code)
        } else if let Some(signal) = status.signal {
            self.exit_code = Some(-signal);
            Ok(-signal)
        } else {
            Err(Failure::new("Process exited without return code or signal"))
        }
    }

    /// What is known of the exit code after the process was asked for it: `polled` is what it
    /// said, or `None` if it runs on. What is known already does not change.
    pub open spec fn code_after(self, polled: Option<ProcessEnd>) -> Result<
        Option<int>,
        Seq<char>,
    > {
        match (self.exit_code, polled) {
            (Some(code), _) => Ok(Some(code as int)),
            (None, None) => Ok(None),
            (None, Some(end)) => match end.exit_code() {
                Some(code) => Ok(Some(code)),
                None => Err("Process exited without return code or signal"@),
            },
        }
    }

    /// Takes note of what the process says of its end: `polled` is `None` if it runs on.
    pub fn try_wait(&mut self, polled: Option<ProcessEnd>) -> (r: Result<Option<i32>, Failure>)
        requires
            polled is Some ==> polled->0.wf(),
        ensures
            match (r, old(self).code_after(polled)) {
                (Ok(a), Ok(b)) => same_code(a, b) && final(self).exit_code == a,
                (Err(a), Err(b)) => a@ == b && *final(self) == *old(self),
                _ => false,
            },
            final(self).paused == old(self).paused,
    {
        if self.exit_code.is_none() {
            // If we don't already have an exit code, try to wait for the process
            if let Some(status) = polled {
                match self.update_exit_code(status) {
                    Ok(_) => {},
                    Err(e) => {
                        return Err(e);
                    },
                }
            }
        }
        Ok(self.exit_code)
    }

    /// Pauses the job: the signal to send. Whether it can be sent or not, the job then counts
    /// as paused.
    pub fn pause(&mut self) -> (r: Result<JobSignal, BusError>)
        ensures
            bus_outcome(r) == if old(self).paused {
                Err::<JobSignal, BusErrorView>(BusErrorView::Failed("Already paused"@))
            } else {
                Ok(JobSignal::Stop)
            },
            *final(self) == (Job { paused: true, ..*old(self) }),
    {
        if self.paused {
            return Err(BusError::Failed("Already paused".to_owned()));
        }
        self.paused = true;
        Ok(JobSignal::Stop)
    }

    /// Resumes the job: the signal to send. Whether it can be sent or not, the job then counts
    /// as running.
    pub fn resume(&mut self) -> (r: Result<JobSignal, BusError>)
        ensures
            bus_outcome(r) == if !old(self).paused {
                Err::<JobSignal, BusErrorView>(BusErrorView::Failed("Not paused"@))
            } else {
                Ok(JobSignal::Cont)
            },
            *final(self) == (Job { paused: false, ..*old(self) }),
    {
        if !self.paused {
            return Err(BusError::Failed("Not paused".to_owned()));
        }
        self.paused = false;
        Ok(JobSignal::Cont)
    }

    /// The signal that cancels a job.
    pub open spec fn cancel_signal(force: bool) -> JobSignal {
        if force {
            JobSignal::Kill
        } else {
            JobSignal::Term
        }
    }

    /// Cancels the job: the signal to send, if the process runs on. `polled` is what the
    /// process says of its end. Where the signal could be sent, `cancel_sent` comes next.
    pub fn cancel(&mut self, force: bool, polled: Option<ProcessEnd>) -> (r: Result<
        Option<JobSignal>,
        BusError,
    >)
        requires
            polled is Some ==> polled->0.wf(),
        ensures
            bus_outcome(r) == (match old(self).code_after(polled) {
                Ok(None) => Ok::<Option<JobSignal>, BusErrorView>(
                    Some(Job::cancel_signal(force)),
                ),
                Ok(Some(_)) => Ok(None),
                Err(e) => Err(BusErrorView::Failed(e)),
            }),
            final(self).paused == old(self).paused,
            match old(self).code_after(polled) {
                Ok(code) => same_code(final(self).exit_code, code),
                Err(_) => final(self).exit_code == old(self).exit_code,
            },
    {
        match self.try_wait(polled) {
            Err(e) => Err(BusError::Failed(e.message)),
            Ok(Some(_)) => Ok(None),
            Ok(None) => if force {
                Ok(Some(JobSignal::Kill))
            } else {
                Ok(Some(JobSignal::Term))
            },
        }
    }

    /// What to send once the signal that cancels the job was sent: a job that is paused has to
    /// go on to see it.
    pub fn cancel_sent(&mut self) -> (r: Option<JobSignal>)
        ensures
            r == if old(self).paused {
                Some(JobSignal::Cont)
            } else {
                None
            },
            *final(self) == (Job { paused: false, ..*old(self) }),
    {
        if self.paused {
            self.paused = false;
            return Some(JobSignal::Cont);
        }
        None
    }

    /// Before the job is waited for: what to send so that a job that is paused goes on.
    pub fn wait(&mut self) -> (r: Option<JobSignal>)
        ensures
            r == if old(self).paused {
                Some(JobSignal::Cont)
            } else {
                None
            },
            *final(self) == (Job { paused: false, ..*old(self) }),
    {
        if self.paused {
            self.paused = false;
            return Some(JobSignal::Cont);
        }
        None
    }

    /// The exit code, if it is known and the process need not be waited for.
    pub fn wait_internal(&self) -> (r: Option<i32>)
        ensures
            r == self.exit_code,
    {
        self.exit_code
    }

    /// The exit code of a job that was waited for: `status` is how its process ended, which
    /// does not matter where the exit code was known before.
    pub fn waited(&mut self, status: Result<ProcessEnd, Failure>) -> (r: Result<i32, BusError>)
        requires
            status is Ok ==> status->Ok_0.wf(),
        ensures
            bus_outcome(r) == (match (old(self).exit_code, status) {
                (Some(code), _) => Ok::<i32, BusErrorView>(code),
                (None, Ok(end)) => match end.exit_code() {
                    Some(code) => Ok(code as i32),
                    None => Err(BusErrorView::Failed("Unable to get exit code"@)),
                },
                (None, Err(_)) => Err(BusErrorView::Failed("Unable to get exit code"@)),
            }),
            final(self).exit_code == (match bus_outcome(r) {
                Ok(code) => Some(code),
                Err(_) => None,
            }),
            final(self).paused == old(self).paused,
    {
        if let Some(code) = self.exit_code {
            return Ok(code);
        }
        match status {
            Ok(status) => match self.update_exit_code(status) {
                Ok(code) => Ok(code),
                Err(_) => Err(BusError::Failed("Unable to get exit code".to_owned())),
            },
            Err(_) => Err(BusError::Failed("Unable to get exit code".to_owned())),
        }
    }
}

/// Whether two optional codes are the same number.
pub open spec fn same_code(a: Option<i32>, b: Option<int>) -> bool {
    match (a, b) {
        (Some(a), Some(b)) => a == b,
        (None, None) => true,
        _ => false,
    }
}

/// A process as the system sees it, one that does not catch signals.
pub struct Process {
    /// Whether it is stopped.
    pub stopped: bool,
    /// Whether it has yet to see the signal to end.
    pub ending: bool,
    /// Its exit code once it has ended.
    pub ended: Option<int>,
}

impl Process {
    /// The process after a signal. One that is stopped sees the signal to end only when it
    /// goes on.
    pub open spec fn after(self, signal: JobSignal) -> Process {
        if self.ended is Some {
            self
        } else {
            match signal {
                JobSignal::Kill => Process { ended: Some(-9), ..self },
                JobSignal::Stop => Process { stopped: true, ..self },
                JobSignal::Term => if self.stopped {
                    Process { ending: true, ..self }
                } else {
                    Process { ended: Some(-15), ..self }
                },
                JobSignal::Cont => if self.ending {
                    Process { stopped: false, ended: Some(-15), ..self }
                } else {
                    Process { stopped: false, ..self }
                },
            }
        }
    }

    /// The process after a signal that may not be sent.
    pub open spec fn after_optional(self, signal: Option<JobSignal>) -> Process {
        match signal {
            Some(signal) => self.after(signal),
            None => self,
        }
    }
}

/// Cancelling a job that runs on ends its process even if the job is paused: the process then
/// has the exit code of the signal that cancels.
pub proof fn law_cancel_ends_process(job: Job, process: Process, force: bool)
    requires
        process.ended is None,
        !process.ending,
        job.paused == process.stopped,
    ensures
        process.after(Job::cancel_signal(force)).after_optional(
            if job.paused {
                Some(JobSignal::Cont)
            } else {
                None
            },
        ).ended == Some(
            if force {
                -9int
            } else {
                -15int
            },
        ),
{
}

/// A job that runs on counts as paused after pausing it, and as running after resuming it; its
/// process is then stopped, or not, just so. Resuming undoes pausing.
pub proof fn law_paused_iff_stopped(job: Job, process: Process)
    requires
        process.ended is None,
        !process.ending,
    ensures
        (Job { paused: true, ..job }).paused == process.after(JobSignal::Stop).stopped,
        (Job { paused: false, ..job }).paused == process.after(JobSignal::Cont).stopped,
        !process.stopped ==> process.after(JobSignal::Stop).after(JobSignal::Cont) == process,
{
}

/// Cancelling is idempotent: once the exit code is known, cancelling sends nothing, whatever
/// the process says, and the exit code stays.
pub proof fn law_cancel_idempotent(job: Job, polled: Option<ProcessEnd>)
    requires
        job.exit_code is Some,
    ensures
        job.code_after(polled) == Ok::<Option<int>, Seq<char>>(Some(job.exit_code->0 as int)),
{
}

/// What the service of the jobs is told.
#[derive(Debug)]
pub enum JobManagerCommand {
    /// Mirror all jobs of a connection.
    MirrorConnection,
    /// Mirror the job at this path, and reply with the path of its mirror.
    MirrorJob(String),
    /// Run a program, and reply with the path of its job.
    RunProcess(JobRequest),
}

/// What happens to the service of the jobs.
#[derive(Debug)]
pub enum JobManagerEvent {
    /// A job was started at this path.
    JobStarted(String),
    /// A command arrives, or none can arrive any more.
    Message(Option<JobManagerCommand>),
}

/// What the service of the jobs does next.
#[derive(Debug)]
pub enum JobManagerAction {
    /// Mirrors the job at this path; a reply is owed if the flag is set.
    MirrorJob(String, bool),
    /// Mirrors all jobs of the connection.
    MirrorConnection,
    /// Runs a program; a reply is owed.
    RunProcess(JobRequest),
    /// Ends.
    Stop(Failure),
}

/// How an action of the service ended.
#[derive(Debug)]
pub enum JobManagerOutcome {
    /// No reply was owed, and the action came to this.
    Done(Result<(), Failure>),
    /// The action's result, whichever it is, was given in reply.
    Replied,
    /// The reply, in these words, could not be given.
    NotReplied(String),
}

/// The service that mirrors and runs jobs.
pub struct JobManagerService {}

impl JobManagerService {
    /// What to do about an event.
    pub fn run(event: JobManagerEvent) -> (r: JobManagerAction)
        ensures
            match event {
                JobManagerEvent::JobStarted(path) => r == JobManagerAction::MirrorJob(path, false),
                JobManagerEvent::Message(Some(JobManagerCommand::MirrorConnection)) => r
                    == JobManagerAction::MirrorConnection,
                JobManagerEvent::Message(Some(JobManagerCommand::MirrorJob(path))) => r
                    == JobManagerAction::MirrorJob(path, true),
                JobManagerEvent::Message(Some(JobManagerCommand::RunProcess(request))) => r
                    == JobManagerAction::RunProcess(request),
                JobManagerEvent::Message(None) => r is Stop && r->Stop_0@
                    == "Job manager service channel broke"@,
            },
    {
        match event {
            JobManagerEvent::JobStarted(path) => JobManagerAction::MirrorJob(path, false),
            JobManagerEvent::Message(Some(command)) => match command {
                JobManagerCommand::MirrorConnection => JobManagerAction::MirrorConnection,
                JobManagerCommand::MirrorJob(path) => JobManagerAction::MirrorJob(path, true),
                JobManagerCommand::RunProcess(request) => JobManagerAction::RunProcess(request),
            },
            JobManagerEvent::Message(None) => JobManagerAction::Stop(
                Failure::new("Job manager service channel broke"),
            ),
        }
    }

    /// Whether the service goes on after an action. A job that fails does not end it where the
    /// failure is given in reply; a reply that cannot be given does.
    pub fn handle_command(end: JobManagerOutcome) -> (r: Result<(), Failure>)
        ensures
            outcome(r) == (match end {
                JobManagerOutcome::Done(result) => outcome(result),
                JobManagerOutcome::Replied => Ok(()),
                JobManagerOutcome::NotReplied(reply) => Err("Failed to send reply "@ + reply@),
            }),
    {
        match end {
            JobManagerOutcome::Done(result) => result,
            JobManagerOutcome::Replied => Ok(()),
            JobManagerOutcome::NotReplied(reply) => Err(
                Failure::with_detail("Failed to send reply ", reply.as_str()),
            ),
        }
    }
}

/// Each named object gives one path, which ends in its name; an object without a name gives
/// none, and the order is kept.
pub proof fn law_job_paths_each(
    a: Seq<Option<Seq<char>>>,
    b: Seq<Option<Seq<char>>>,
    name: Seq<char>,
)
    ensures
        job_paths(a + b) == job_paths(a) + job_paths(b),
        job_paths(seq![Some(name)]) == seq![JOB_PREFIX@ + "/"@ + name],
        job_paths(seq![None]) == Seq::<Seq<char>>::empty(),
{
    lemma_job_paths_parts(a, b);
    reveal_with_fuel(job_paths, 2);
    let one: Seq<Option<Seq<char>>> = seq![Some(name)];
    assert(one.drop_last() =~= Seq::<Option<Seq<char>>>::empty());
    assert(job_paths(one) =~= seq![JOB_PREFIX@ + "/"@ + name]);
    let none: Seq<Option<Seq<char>>> = seq![None];
    assert(none.drop_last() =~= Seq::<Option<Seq<char>>>::empty());
}

proof fn lemma_job_paths_parts(a: Seq<Option<Seq<char>>>, b: Seq<Option<Seq<char>>>)
    ensures
        job_paths(a + b) == job_paths(a) + job_paths(b),
    decreases b.len(),
{
    if b.len() == 0 {
        assert(a + b =~= a);
        assert(job_paths(a) + job_paths(b) =~= job_paths(a));
    } else {
        assert((a + b).drop_last() =~= a + b.drop_last());
        assert((a + b).last() == b.last());
        lemma_job_paths_parts(a, b.drop_last());
        assert(job_paths(a + b) =~= job_paths(a) + job_paths(b));
    }
}

/// The path of a job is its number below the object of all jobs.
pub proof fn law_job_path_number(n: nat)
    ensures
        job_path(n) == JOB_PREFIX@ + "/"@ + decimal(n),
        mirror_name(JOB_PREFIX@, job_path(n)) == JOB_PREFIX@ + ":"@ + job_path(n),
{
}

/// An exit code is what the process gave, a signal counts below zero, and what is known already
/// does not change: not by a process that says something else, nor by one that says nothing.
pub proof fn law_exit_codes(
    code: i32,
    signal: i32,
    known: Job,
    fresh: Job,
    polled: Option<ProcessEnd>,
)
    requires
        known.exit_code == Some(code),
        fresh.exit_code is None,
    ensures
        (ProcessEnd { code: Some(code), signal: None }).exit_code() == Some(code as int),
        (ProcessEnd { code: Some(code), signal: Some(signal) }).exit_code() == Some(code as int),
        (ProcessEnd { code: None, signal: Some(signal) }).exit_code() == Some(-(signal as int)),
        (ProcessEnd { code: None, signal: None }).exit_code() is None,
        known.code_after(polled) == Ok::<Option<int>, Seq<char>>(Some(code as int)),
        fresh.code_after(None) == Ok::<Option<int>, Seq<char>>(None),
        fresh.code_after(Some(ProcessEnd { code: Some(code), signal: None })) == Ok::<
            Option<int>,
            Seq<char>,
        >(Some(code as int)),
        fresh.code_after(Some(ProcessEnd { code: None, signal: Some(signal) })) == Ok::<
            Option<int>,
            Seq<char>,
        >(Some(-(signal as int))),
        fresh.code_after(Some(ProcessEnd { code: None, signal: None })) is Err,
{
}

/// A process with a number is signalled by that very number, if and only if the number fits.
pub proof fn law_signal_target(pid: u32)
    ensures
        signal_target(Some(pid)) is Ok <==> pid <= 2147483647,
        signal_target(Some(pid)) is Ok ==> signal_target(Some(pid))->Ok_0 == pid,
        signal_target(None) is Err,
{
}

/// A process that is gone cannot be signalled, one whose number is no process number neither, and
/// one that ended with neither code nor signal is an error; each says what is amiss.
pub proof fn law_job_refusals(pid: u32, job: Job)
    requires
        pid > i32::MAX,
        job.exit_code is None,
    ensures
        signal_target(None) == Err::<i32, Seq<char>>(
            "Unable to get pid from command, it likely finished running"@,
        ),
        signal_target(Some(pid)) == Err::<i32, Seq<char>>(
            "Unable to get pid_t from command "@
                + "out of range integral type conversion attempted"@,
        ),
        job.code_after(Some(ProcessEnd { code: None, signal: None })) == Err::<
            Option<int>,
            Seq<char>,
        >("Process exited without return code or signal"@),
{
}

} // verus!
