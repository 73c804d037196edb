//! The jobs of the service: how they wait, run, end and are called off.
use crate::launcher::LauncherConfig;
use crate::laws::jobs::{law_requested_values_are_used, law_requested_version_is_downloaded};
use crate::text::same_text;
use std::collections::{HashMap, HashSet, VecDeque};
use vstd::prelude::*;
use vstd::std_specs::iter::IteratorSpec;

verus! {

broadcast use vstd::std_specs::hash::group_hash_axioms;

// ---------------------------------------------------------------------------------------------
// Jobs
// ---------------------------------------------------------------------------------------------

/// How far a job has come.
#[derive(Clone, Copy, PartialEq, Eq, Structural)]
pub enum TaskState {
    Queued,
    Running,
    Completed,
    Failed,
    Canceled,
}

impl TaskState {
    /// The name of the state.
    pub open spec fn spelled(self) -> Seq<char> {
        match self {
            TaskState::Queued => "queued"@,
            TaskState::Running => "running"@,
            TaskState::Completed => "completed"@,
            TaskState::Failed => "failed"@,
            TaskState::Canceled => "canceled"@,
        }
    }

    /// The name of the state.
    pub fn name(&self) -> (name: String)
        ensures
            name@ == self.spelled(),
    {
        match self {
            TaskState::Queued => "queued".to_owned(),
            TaskState::Running => "running".to_owned(),
            TaskState::Completed => "completed".to_owned(),
            TaskState::Failed => "failed".to_owned(),
            TaskState::Canceled => "canceled".to_owned(),
        }
    }
}

/// What a request to run a job holds.
pub struct SubmitPayload {
    pub module: String,
    pub version: Option<String>,
    pub minecraft_path: Option<String>,
    pub java_path: Option<String>,
    pub wrapper_path: Option<String>,
    pub launcher_version: Option<String>,
    pub max_memory: Option<String>,
    pub version_type: Option<String>,
    pub player: Option<String>,
    pub token: Option<String>,
    pub uuid: Option<String>,
}

/// A job: what was requested, under the identifier that it got.
pub struct Job {
    pub id: u128,
    pub module: String,
    pub version: Option<String>,
    pub minecraft_path: Option<String>,
    pub java_path: Option<String>,
    pub wrapper_path: Option<String>,
    pub launcher_version: Option<String>,
    pub max_memory: Option<String>,
    pub version_type: Option<String>,
    pub player: Option<String>,
    pub token: Option<String>,
    pub uuid: Option<String>,
}

/// The job that a request asks for.
pub open spec fn requested_job(id: u128, payload: SubmitPayload) -> Job {
    Job {
        id,
        module: payload.module,
        version: payload.version,
        minecraft_path: payload.minecraft_path,
        java_path: payload.java_path,
        wrapper_path: payload.wrapper_path,
        launcher_version: payload.launcher_version,
        max_memory: payload.max_memory,
        version_type: payload.version_type,
        player: payload.player,
        token: payload.token,
        uuid: payload.uuid,
    }
}

/// The work that a job asks for.
pub enum TaskPlan {
    /// Sort the versions by kind.
    ClassifyVersions,
    /// Download a version into a directory under the current one.
    OriginalDownload { version: String, directory: String },
    /// Start the game.
    LaunchGame {
        config: LauncherConfig,
        version: String,
        player: String,
        token: String,
        uuid: String,
    },
    /// Do nothing but report.
    Report { text: String },
}

/// The texts of a `TaskPlan`.
pub enum TaskPlanView {
    ClassifyVersions,
    OriginalDownload { version: Seq<char>, directory: Seq<char> },
    LaunchGame {
        minecraft_path: Seq<char>,
        java_path: Seq<char>,
        wrapper_path: Seq<char>,
        launcher_version: Seq<char>,
        max_memory: Seq<char>,
        version_type: Seq<char>,
        version: Seq<char>,
        player: Seq<char>,
        token: Seq<char>,
        uuid: Seq<char>,
    },
    Report { text: Seq<char> },
}

impl View for TaskPlan {
    type V = TaskPlanView;

    open spec fn view(&self) -> TaskPlanView {
        match self {
            TaskPlan::ClassifyVersions => TaskPlanView::ClassifyVersions,
            TaskPlan::OriginalDownload { version, directory } => TaskPlanView::OriginalDownload {
                version: version@,
                directory: directory@,
            },
            TaskPlan::LaunchGame { config, version, player, token, uuid } =>
            TaskPlanView::LaunchGame {
                minecraft_path: config.minecraft_path@,
                java_path: config.java_path@,
                wrapper_path: config.wrapper_path@,
                launcher_version: config.launcher_version@,
                max_memory: config.max_memory@,
                version_type: config.version_type@,
                version: version@,
                player: player@,
                token: token@,
                uuid: uuid@,
            },
            TaskPlan::Report { text } => TaskPlanView::Report { text: text@ },
        }
    }
}

/// What was given, or `otherwise` where nothing was.
pub open spec fn given_or(given: Option<String>, otherwise: Seq<char>) -> Seq<char> {
    match given {
        Some(text) => text@,
        None => otherwise,
    }
}

/// What was given, or `otherwise` where nothing was.
fn take_or(given: Option<String>, otherwise: &str) -> (text: String)
    ensures
        text@ == given_or(given, otherwise@),
{
    match given {
        Some(text) => text,
        None => otherwise.to_owned(),
    }
}

/// The work that a job asks for, by the name of its module, with a value for all that the
/// request leaves out.
pub open spec fn planned_task(job: Job) -> TaskPlanView {
    if job.module@ == "classify_versions"@ {
        TaskPlanView::ClassifyVersions
    } else if job.module@ == "original_download"@ {
        TaskPlanView::OriginalDownload {
            version: given_or(job.version, "1.20.4"@),
            directory: ".minecraft"@,
        }
    } else if job.module@ == "launch_game"@ {
        TaskPlanView::LaunchGame {
            minecraft_path: given_or(job.minecraft_path, "C:/Users/smh20/.minecraftx"@),
            java_path: given_or(job.java_path, "C:/Program Files/Java/jdk-17/bin/java.exe"@),
            wrapper_path: given_or(
                job.wrapper_path,
                "C:/Users/smh20/Documents/Rust/java_launch_wrapper-1.4.3.jar"@,
            ),
            launcher_version: given_or(job.launcher_version, "1.0.0"@),
            max_memory: given_or(job.max_memory, "16384"@),
            version_type: given_or(job.version_type, "NULL11034"@),
            version: given_or(job.version, "1.19.2"@),
            player: given_or(job.player, "Player"@),
            token: given_or(job.token, "mc_token"@),
            uuid: given_or(job.uuid, "uuid"@),
        }
    } else {
        TaskPlanView::Report { text: "Unknown module: "@ + job.module@ }
    }
}

/// The work that a job asks for.
pub fn build_task(job: Job) -> (plan: TaskPlan)
    ensures
        plan@ == planned_task(job),
        job.module@ == "original_download"@ ==> (plan matches TaskPlan::OriginalDownload {
            version,
            ..
        } && (job.version matches Some(wanted) ==> version@ == wanted@) && (job.version is None
            ==> version@ == "1.20.4"@)),
        job.module@ == "launch_game"@ ==> (plan matches TaskPlan::LaunchGame {
            config,
            version,
            player,
            token,
            uuid,
        } && (job.version matches Some(wanted) ==> version@ == wanted@) && (
        job.player matches Some(given) ==> player@ == given@) && (job.token matches Some(given)
            ==> token@ == given@) && (job.uuid matches Some(given) ==> uuid@ == given@) && (
        job.minecraft_path matches Some(given) ==> config.minecraft_path@ == given@) && (
        job.java_path matches Some(given) ==> config.java_path@ == given@) && (
        job.wrapper_path matches Some(given) ==> config.wrapper_path@ == given@) && (
        job.launcher_version matches Some(given) ==> config.launcher_version@ == given@) && (
        job.max_memory matches Some(given) ==> config.max_memory@ == given@) && (
        job.version_type matches Some(given) ==> config.version_type@ == given@)),
{
    proof {
        if job.module@ == "original_download"@ {
            law_requested_version_is_downloaded(job);
        }
        if job.module@ == "launch_game"@ {
            law_requested_values_are_used(job);
        }
    }
    let module = job.module.as_str();
    if same_text(module, "classify_versions") {
        TaskPlan::ClassifyVersions
    } else if same_text(module, "original_download") {
        TaskPlan::OriginalDownload {
            version: take_or(job.version, "1.20.4"),
            directory: ".minecraft".to_owned(),
        }
    } else if same_text(module, "launch_game") {
        TaskPlan::LaunchGame {
            config: LauncherConfig {
                minecraft_path: take_or(job.minecraft_path, "C:/Users/smh20/.minecraftx"),
                java_path: take_or(job.java_path, "C:/Program Files/Java/jdk-17/bin/java.exe"),
                wrapper_path: take_or(
                    job.wrapper_path,
                    "C:/Users/smh20/Documents/Rust/java_launch_wrapper-1.4.3.jar",
                ),
                launcher_version: take_or(job.launcher_version, "1.0.0"),
                max_memory: take_or(job.max_memory, "16384"),
                version_type: take_or(job.version_type, "NULL11034"),
            },
            version: take_or(job.version, "1.19.2"),
            player: take_or(job.player, "Player"),
            token: take_or(job.token, "mc_token"),
            uuid: take_or(job.uuid, "uuid"),
        }
    } else {
        TaskPlan::Report { text: "Unknown module: ".to_owned().concat(module) }
    }
}

/// The message that a job has ended.
pub fn done_message(module: &str) -> (message: String)
    ensures
        message@ == module@ + " done"@,
{
    module.to_owned().concat(" done")
}

// ---------------------------------------------------------------------------------------------
// The board
// ---------------------------------------------------------------------------------------------

/// What is known of a job.
pub struct TaskStatus {
    pub state: TaskState,
    pub module: String,
    pub info: String,
}

/// The texts of a `TaskStatus`.
pub struct StatusView {
    pub state: TaskState,
    pub module: Seq<char>,
    pub info: Seq<char>,
}

impl View for TaskStatus {
    type V = StatusView;

    open spec fn view(&self) -> StatusView {
        StatusView { state: self.state, module: self.module@, info: self.info@ }
    }
}

/// What is known of a job, with its identifier.
pub struct TaskReport {
    pub id: u128,
    pub status: TaskStatus,
}

/// How the work of a job ended.
pub enum TaskEnd {
    Completed(String),
    Failed(String),
    Aborted,
}

/// The answer to a request to call a job off: whether its work is to be aborted, and the text of
/// the reply.
pub struct Interruption {
    pub abort: bool,
    pub reply: String,
}

/// All that the service knows of its jobs: the status of each, those that wait, those that run,
/// those that were called off before they ran, and how many workers are active.
pub struct TaskBoard {
    status: HashMap<u128, TaskStatus>,
    queue: VecDeque<Job>,
    running: HashSet<u128>,
    cancelled: HashSet<u128>,
    workers: usize,
}

/// A worker that has no job. Only the board hands one out, and it is given up for a job or by
/// stopping, so that a worker cannot look for work before its last job has ended.
pub struct Worker {
    idle: (),
}

/// A worker with a job whose work goes on: what the board has to be told of the job once the work
/// has ended.
pub struct RunningJob {
    worker: Worker,
    id: u128,
    module: String,
}

/// The identifier and the module of a `RunningJob`.
pub struct RunningView {
    pub id: u128,
    pub module: Seq<char>,
}

impl View for RunningJob {
    type V = RunningView;

    closed spec fn view(&self) -> RunningView {
        RunningView { id: self.id, module: self.module@ }
    }
}

/// The contents of a `TaskBoard`.
#[verifier::ext_equal]
pub struct BoardView {
    pub status: Map<u128, StatusView>,
    pub queue: Seq<Job>,
    pub running: Set<u128>,
    pub cancelled: Set<u128>,
    pub workers: usize,
}

/// What can happen to the board.
pub enum Step {
    Submit { job: Job },
    Take,
    Start { job: Job },
    Track { id: u128 },
    Finish { id: u128, module: Seq<char>, end: TaskEnd },
    Untrack { id: u128 },
    Interrupt { id: u128 },
    StopWorker,
}

/// The status of a job whose work has ended.
pub open spec fn end_status(module: Seq<char>, end: TaskEnd) -> StatusView {
    match end {
        TaskEnd::Completed(text) => StatusView { state: TaskState::Completed, module, info: text@ },
        TaskEnd::Failed(text) => StatusView { state: TaskState::Failed, module, info: text@ },
        TaskEnd::Aborted => StatusView {
            state: TaskState::Canceled,
            module,
            info: "by interrupt"@,
        },
    }
}

/// The board once `step` has happened.
pub open spec fn stepped(board: BoardView, step: Step) -> BoardView {
    match step {
        Step::Submit { job } => BoardView {
            status: board.status.insert(
                job.id,
                StatusView { state: TaskState::Queued, module: job.module@, info: ""@ },
            ),
            queue: board.queue.push(job),
            workers: if board.workers == 0 {
                1
            } else {
                board.workers
            },
            ..board
        },
        Step::Take => BoardView {
            queue: if board.queue.len() == 0 {
                board.queue
            } else {
                board.queue.drop_first()
            },
            ..board
        },
        Step::Start { job } => if board.cancelled.contains(job.id) {
            BoardView {
                status: board.status.insert(
                    job.id,
                    StatusView {
                        state: TaskState::Canceled,
                        module: job.module@,
                        info: "canceled in queue"@,
                    },
                ),
                cancelled: board.cancelled.remove(job.id),
                ..board
            }
        } else {
            BoardView {
                status: board.status.insert(
                    job.id,
                    StatusView { state: TaskState::Running, module: job.module@, info: ""@ },
                ),
                ..board
            }
        },
        Step::Track { id } => BoardView { running: board.running.insert(id), ..board },
        Step::Finish { id, module, end } => BoardView {
            status: board.status.insert(id, end_status(module, end)),
            ..board
        },
        Step::Untrack { id } => BoardView { running: board.running.remove(id), ..board },
        Step::Interrupt { id } => if board.running.contains(id) {
            BoardView {
                status: board.status.insert(
                    id,
                    StatusView {
                        state: TaskState::Canceled,
                        module: "running"@,
                        info: "aborted"@,
                    },
                ),
                running: board.running.remove(id),
                ..board
            }
        } else {
            BoardView {
                status: board.status.insert(
                    id,
                    StatusView {
                        state: TaskState::Canceled,
                        module: "queued"@,
                        info: "canceled before run"@,
                    },
                ),
                cancelled: board.cancelled.insert(id),
                ..board
            }
        },
        Step::StopWorker => BoardView {
            workers: if board.workers == 0 {
                usize::MAX
            } else {
                (board.workers - 1) as usize
            },
            ..board
        },
    }
}

/// What a worker that looks for work does to the board, and the job that it gets: it drops the
/// jobs that were called off, gets the first that was not, and stops where there is none.
pub open spec fn next_found(board: BoardView) -> (BoardView, Option<Job>)
    decreases board.queue.len(),
{
    if board.queue.len() == 0 {
        (stepped(board, Step::StopWorker), None)
    } else {
        let job = board.queue[0];
        let started = stepped(stepped(board, Step::Take), Step::Start { job });
        if board.cancelled.contains(job.id) {
            next_found(started)
        } else {
            (stepped(started, Step::Track { id: job.id }), Some(job))
        }
    }
}

/// The board once the work of a job has ended and can no longer be aborted.
pub open spec fn job_ended(board: BoardView, id: u128, module: Seq<char>, end: TaskEnd) -> BoardView {
    stepped(stepped(board, Step::Finish { id, module, end }), Step::Untrack { id })
}

impl View for TaskBoard {
    type V = BoardView;

    closed spec fn view(&self) -> BoardView {
        BoardView {
            status: self.status@.map_values(|status: TaskStatus| status@),
            queue: self.queue@,
            running: self.running@,
            cancelled: self.cancelled@,
            workers: self.workers,
        }
    }
}

impl TaskBoard {
    /// A board without jobs.
    pub fn new() -> (board: TaskBoard)
        ensures
            board@.status == Map::<u128, StatusView>::empty(),
            board@.queue == Seq::<Job>::empty(),
            board@.running == Set::<u128>::empty(),
            board@.cancelled == Set::<u128>::empty(),
            board@.workers == 0,
    {
        TaskBoard {
            status: HashMap::new(),
            queue: VecDeque::new(),
            running: HashSet::new(),
            cancelled: HashSet::new(),
            workers: 0,
        }
    }

    /// Notes what is known of a job.
    fn note(&mut self, id: u128, state: TaskState, module: String, info: String)
        ensures
            final(self)@ == (BoardView {
                status: old(self)@.status.insert(
                    id,
                    StatusView { state, module: module@, info: info@ },
                ),
                ..old(self)@
            }),
    {
        self.status.insert(id, TaskStatus { state, module, info });
        assert(self@ =~= BoardView {
            status: old(self)@.status.insert(
                id,
                StatusView { state, module: module@, info: info@ },
            ),
            ..old(self)@
        });
    }

    /// Takes in a request under the identifier `id`. The answer is the worker that is to be
    /// started: there is one just where none is active.
    pub fn submit(&mut self, id: u128, payload: SubmitPayload) -> (started: Option<Worker>)
        ensures
            final(self)@ == stepped(old(self)@, Step::Submit { job: requested_job(id, payload) }),
            started is Some <==> old(self)@.workers == 0,
    {
        self.note(id, TaskState::Queued, payload.module.clone(), "".to_owned());
        let job = Job {
            id,
            module: payload.module,
            version: payload.version,
            minecraft_path: payload.minecraft_path,
            java_path: payload.java_path,
            wrapper_path: payload.wrapper_path,
            launcher_version: payload.launcher_version,
            max_memory: payload.max_memory,
            version_type: payload.version_type,
            player: payload.player,
            token: payload.token,
            uuid: payload.uuid,
        };
        self.queue.push_back(job);
        if self.workers == 0 {
            self.workers = 1;
            Some(Worker { idle: () })
        } else {
            None
        }
    }

    /// Hands out the job that has waited longest.
    fn take_job(&mut self) -> (job: Option<Job>)
        ensures
            final(self)@ == stepped(old(self)@, Step::Take),
            job == (if old(self)@.queue.len() == 0 {
                None
            } else {
                Some(old(self)@.queue[0])
            }),
    {
        self.queue.pop_front()
    }

    /// Decides whether a job that was handed out is run: one that was called off is not.
    fn start_job(&mut self, job: &Job) -> (run: bool)
        ensures
            final(self)@ == stepped(old(self)@, Step::Start { job: *job }),
            run == !old(self)@.cancelled.contains(job.id),
    {
        if self.cancelled.remove(&job.id) {
            self.note(
                job.id,
                TaskState::Canceled,
                job.module.clone(),
                "canceled in queue".to_owned(),
            );
            false
        } else {
            self.note(job.id, TaskState::Running, job.module.clone(), "".to_owned());
            true
        }
    }

    /// Notes that the work of a job can be aborted from now on.
    fn track(&mut self, id: u128)
        ensures
            final(self)@ == stepped(old(self)@, Step::Track { id }),
    {
        self.running.insert(id);
    }

    /// Notes how the work of a job ended.
    fn finish(&mut self, id: u128, module: &str, end: TaskEnd)
        ensures
            final(self)@ == stepped(old(self)@, Step::Finish { id, module: module@, end }),
    {
        match end {
            TaskEnd::Completed(text) => {
                self.note(id, TaskState::Completed, module.to_owned(), text);
            },
            TaskEnd::Failed(text) => {
                self.note(id, TaskState::Failed, module.to_owned(), text);
            },
            TaskEnd::Aborted => {
                self.note(
                    id,
                    TaskState::Canceled,
                    module.to_owned(),
                    "by interrupt".to_owned(),
                );
            },
        }
    }

    /// Notes that the work of a job can no longer be aborted.
    fn untrack(&mut self, id: u128)
        ensures
            final(self)@ == stepped(old(self)@, Step::Untrack { id }),
    {
        self.running.remove(&id);
    }

    /// Calls a job off: aborts its work, or keeps it from being run.
    pub fn interrupt(&mut self, id: u128) -> (answer: Interruption)
        ensures
            final(self)@ == stepped(old(self)@, Step::Interrupt { id }),
            answer.abort == old(self)@.running.contains(id),
            answer.reply@ == (if old(self)@.running.contains(id) {
                "running task canceled"@
            } else {
                "queued task canceled"@
            }),
    {
        if self.running.remove(&id) {
            self.note(id, TaskState::Canceled, "running".to_owned(), "aborted".to_owned());
            Interruption { abort: true, reply: "running task canceled".to_owned() }
        } else {
            self.cancelled.insert(id);
            self.note(
                id,
                TaskState::Canceled,
                "queued".to_owned(),
                "canceled before run".to_owned(),
            );
            Interruption { abort: false, reply: "queued task canceled".to_owned() }
        }
    }

    /// Notes that a worker has stopped.
    fn stop_worker(&mut self)
        ensures
            final(self)@ == stepped(old(self)@, Step::StopWorker),
    {
        let before: usize = self.workers;
        self.workers = before.wrapping_sub(1);
    }

    /// All that is known of the jobs: each one once, in no order that is promised.
    pub fn list_tasks(&self) -> (reports: Vec<TaskReport>)
        ensures
            forall|i: int|
                0 <= i < reports@.len() ==> self@.status.contains_key((#[trigger] reports@[i]).id)
                    && reports@[i].status@ == self@.status[reports@[i].id],
            forall|i: int, j: int|
                0 <= i < j < reports@.len() ==> (#[trigger] reports@[i]).id != (
                #[trigger] reports@[j]).id,
            forall|id: u128| #[trigger]
                self@.status.contains_key(id) ==> exists|i: int|
                    0 <= i < reports@.len() && (#[trigger] reports@[i]).id == id,
    {
        let mut reports: Vec<TaskReport> = Vec::new();
        let pairs = self.status.iter();
        let ghost all = pairs.remaining();
        for pair in entries: pairs
            invariant
                entries.seq() == all,
                reports@.len() == entries.index(),
                forall|i: int|
                    0 <= i < reports@.len() ==> (#[trigger] reports@[i]).id == *all[i].0
                        && reports@[i].status@ == (*all[i].1)@,
        {
            let (id, status) = pair;
            reports.push(
                TaskReport {
                    id: *id,
                    status: TaskStatus {
                        state: status.state,
                        module: status.module.clone(),
                        info: status.info.clone(),
                    },
                },
            );
        }
        proof {
            assert forall|i: int, j: int| 0 <= i < j < reports@.len() implies (
            #[trigger] reports@[i]).id != (#[trigger] reports@[j]).id by {
                assert(self.status@[*all[i].0] == *all[i].1);
                assert(self.status@[*all[j].0] == *all[j].1);
                assert(all[i] != all[j]);
            }
            assert forall|id: u128| #[trigger] self@.status.contains_key(id) implies exists|i: int|
                0 <= i < reports@.len() && (#[trigger] reports@[i]).id == id by {
                assert(self.status@.contains_key(id));
                let i = choose|i: int|
                    0 <= i < all.len() && all[i] == (&id, &self.status@[id]);
                assert(reports@[i].id == id);
            }
        }
        reports
    }
}

impl Worker {
    /// Looks for work: gets the first job that was not called off and notes that it runs. Without
    /// one, the worker has stopped.
    pub fn next_job(self, board: &mut TaskBoard) -> (found: Option<(Job, RunningJob)>)
        ensures
            final(board)@ == next_found(old(board)@).0,
            match found {
                None => next_found(old(board)@).1 is None,
                Some((job, running)) => next_found(old(board)@).1 == Some(job) && running@ == (
                RunningView { id: job.id, module: job.module@ }),
            },
    {
        loop
            invariant
                next_found(board@) == next_found(old(board)@),
            decreases board@.queue.len(),
        {
            match board.take_job() {
                None => {
                    board.stop_worker();
                    return None;
                },
                Some(job) => {
                    if board.start_job(&job) {
                        board.track(job.id);
                        let module = job.module.clone();
                        let running = RunningJob { worker: self, id: job.id, module };
                        return Some((job, running));
                    }
                },
            }
        }
    }
}

impl RunningJob {
    /// Notes how the work of the job ended, and that it can no longer be aborted. The worker is
    /// free again, however the work ended. Beside it comes the message for those who follow the
    /// job.
    pub fn end(self, board: &mut TaskBoard, end: TaskEnd) -> (freed: (Worker, String))
        ensures
            final(board)@ == job_ended(old(board)@, self@.id, self@.module, end),
            freed.1@ == self@.module + " done"@,
    {
        board.finish(self.id, self.module.as_str(), end);
        board.untrack(self.id);
        let message = done_message(self.module.as_str());
        (self.worker, message)
    }
}

// ---------------------------------------------------------------------------------------------
// What holds of the board whatever happens
// ---------------------------------------------------------------------------------------------

/// The board once all of `steps` have happened, in order.
pub open spec fn after_steps(board: BoardView, steps: Seq<Step>) -> BoardView
    decreases steps.len(),
{
    if steps.len() == 0 {
        board
    } else {
        stepped(after_steps(board, steps.drop_last()), steps.last())
    }
}

/// The jobs that `steps` submit, in order.
pub open spec fn submitted_jobs(steps: Seq<Step>) -> Seq<Job>
    decreases steps.len(),
{
    if steps.len() == 0 {
        Seq::empty()
    } else {
        let earlier = submitted_jobs(steps.drop_last());
        match steps.last() {
            Step::Submit { job } => earlier.push(job),
            _ => earlier,
        }
    }
}

/// The jobs that `steps` hand out, in order.
pub open spec fn taken_jobs(board: BoardView, steps: Seq<Step>) -> Seq<Job>
    decreases steps.len(),
{
    if steps.len() == 0 {
        Seq::empty()
    } else {
        let earlier = taken_jobs(board, steps.drop_last());
        let queue = after_steps(board, steps.drop_last()).queue;
        if steps.last() is Take && queue.len() > 0 {
            earlier.push(queue[0])
        } else {
            earlier
        }
    }
}

/// Jobs are handed out in the order in which they were submitted, none twice and none left out.
pub proof fn law_jobs_leave_in_order(board: BoardView, steps: Seq<Step>)
    ensures
        taken_jobs(board, steps) + after_steps(board, steps).queue == board.queue + submitted_jobs(
            steps,
        ),
    decreases steps.len(),
{
    if steps.len() > 0 {
        let earlier = steps.drop_last();
        law_jobs_leave_in_order(board, earlier);
        let queue = after_steps(board, earlier).queue;
        let taken = taken_jobs(board, earlier);
        match steps.last() {
            Step::Submit { job } => {
                assert(taken + queue.push(job) =~= (taken + queue).push(job));
                assert(board.queue + submitted_jobs(earlier).push(job) =~= (board.queue
                    + submitted_jobs(earlier)).push(job));
            },
            Step::Take => {
                if queue.len() > 0 {
                    assert(taken.push(queue[0]) + queue.drop_first() =~= taken + queue);
                }
            },
            _ => {},
        }
    } else {
        assert(Seq::<Job>::empty() + board.queue =~= board.queue + Seq::<Job>::empty());
    }
}

/// A step is the start of the job `id`.
pub open spec fn starts_job(step: Step, id: u128) -> bool {
    step matches Step::Start { job } && job.id == id
}

/// A job that was called off stays called off until it is its turn to run.
pub proof fn law_called_off_until_its_turn(board: BoardView, steps: Seq<Step>, id: u128)
    requires
        board.cancelled.contains(id),
        forall|i: int| 0 <= i < steps.len() ==> !starts_job(#[trigger] steps[i], id),
    ensures
        after_steps(board, steps).cancelled.contains(id),
    decreases steps.len(),
{
    if steps.len() > 0 {
        let earlier = steps.drop_last();
        assert forall|i: int| 0 <= i < earlier.len() implies !starts_job(
            #[trigger] earlier[i],
            id,
        ) by {
            assert(earlier[i] == steps[i]);
        }
        law_called_off_until_its_turn(board, earlier, id);
        assert(!starts_job(steps[steps.len() - 1], id));
    }
}

/// A job that is called off before it runs is not run when its turn comes, whatever happens in
/// between. It is reported as canceled in the queue, it could be run if it were submitted again,
/// and the worker whose turn it was goes on with the rest of the queue.
pub proof fn law_called_off_job_is_not_run(board: BoardView, steps: Seq<Step>, job: Job)
    requires
        !board.running.contains(job.id),
        forall|i: int| 0 <= i < steps.len() ==> !starts_job(#[trigger] steps[i], job.id),
    ensures
        ({
            let turn = after_steps(stepped(board, Step::Interrupt { id: job.id }), steps);
            &&& turn.cancelled.contains(job.id)
            &&& stepped(turn, Step::Start { job }).status[job.id] == (StatusView {
                state: TaskState::Canceled,
                module: job.module@,
                info: "canceled in queue"@,
            })
            &&& !stepped(turn, Step::Start { job }).cancelled.contains(job.id)
            &&& turn.queue.len() > 0 && turn.queue[0] == job ==> next_found(turn) == next_found(
                stepped(stepped(turn, Step::Take), Step::Start { job }),
            )
        }),
{
    law_called_off_until_its_turn(stepped(board, Step::Interrupt { id: job.id }), steps, job.id);
}

/// A job whose work is aborted is reported as canceled, and stays so once the work has ended.
pub proof fn law_aborted_job_stays_canceled(board: BoardView, id: u128, module: Seq<char>)
    requires
        board.running.contains(id),
    ensures
        ({
            let aborted = stepped(board, Step::Interrupt { id });
            let ended = stepped(aborted, Step::Finish { id, module, end: TaskEnd::Aborted });
            &&& aborted.status[id].state is Canceled
            &&& !aborted.running.contains(id)
            &&& aborted.cancelled == board.cancelled
            &&& ended.status[id] == (StatusView {
                state: TaskState::Canceled,
                module,
                info: "by interrupt"@,
            })
        }),
{
}

/// The job that a step is about, where it is about one.
pub open spec fn subject(step: Step) -> Option<u128> {
    match step {
        Step::Submit { job } => Some(job.id),
        Step::Start { job } => Some(job.id),
        Step::Track { id } => Some(id),
        Step::Finish { id, .. } => Some(id),
        Step::Untrack { id } => Some(id),
        Step::Interrupt { id } => Some(id),
        Step::Take => None,
        Step::StopWorker => None,
    }
}

/// A step leaves alone what is known of the jobs that it is not about.
pub proof fn law_steps_leave_other_jobs_alone(board: BoardView, step: Step, other: u128)
    requires
        subject(step) != Some(other),
    ensures
        stepped(board, step).status.contains_key(other) == board.status.contains_key(other),
        board.status.contains_key(other) ==> stepped(board, step).status[other]
            == board.status[other],
        stepped(board, step).running.contains(other) == board.running.contains(other),
        stepped(board, step).cancelled.contains(other) == board.cancelled.contains(other),
{
}

/// A job that is known once is known for ever.
pub proof fn law_jobs_are_not_forgotten(board: BoardView, steps: Seq<Step>, id: u128)
    requires
        board.status.contains_key(id),
    ensures
        after_steps(board, steps).status.contains_key(id),
    decreases steps.len(),
{
    if steps.len() > 0 {
        law_jobs_are_not_forgotten(board, steps.drop_last(), id);
    }
}

/// The workers that `steps` start, less those that stop.
pub open spec fn active_workers(board: BoardView, steps: Seq<Step>) -> int
    decreases steps.len(),
{
    if steps.len() == 0 {
        0
    } else {
        let earlier = steps.drop_last();
        let count = active_workers(board, earlier);
        if steps.last() is Submit && after_steps(board, earlier).workers == 0 {
            count + 1
        } else if steps.last() is StopWorker {
            count - 1
        } else {
            count
        }
    }
}

/// Only workers that were started stop.
pub open spec fn only_workers_stop(board: BoardView, steps: Seq<Step>) -> bool
    decreases steps.len(),
{
    steps.len() > 0 ==> {
        let earlier = steps.drop_last();
        &&& only_workers_stop(board, earlier)
        &&& steps.last() is StopWorker ==> active_workers(board, earlier) > 0
    }
}

/// There is never more than one worker, and the board knows how many there are.
pub proof fn law_one_worker_at_a_time(board: BoardView, steps: Seq<Step>)
    requires
        board.workers == 0,
        only_workers_stop(board, steps),
    ensures
        0 <= active_workers(board, steps) <= 1,
        active_workers(board, steps) == after_steps(board, steps).workers,
    decreases steps.len(),
{
    if steps.len() > 0 {
        law_one_worker_at_a_time(board, steps.drop_last());
    }
}

/// Whatever has happened, a request leaves a worker active: it starts one just where there is none.
pub proof fn law_requests_leave_a_worker(board: BoardView, steps: Seq<Step>, job: Job)
    requires
        board.workers == 0,
        only_workers_stop(board, steps),
    ensures
        active_workers(board, steps.push(Step::Submit { job })) == 1,
        after_steps(board, steps).workers == 0 <==> active_workers(board, steps) == 0,
{
    law_one_worker_at_a_time(board, steps);
    assert(steps.push(Step::Submit { job }).drop_last() =~= steps);
}

/// Workers stop only where no job waits.
pub open spec fn workers_stop_idle(board: BoardView, steps: Seq<Step>) -> bool
    decreases steps.len(),
{
    steps.len() > 0 ==> {
        let earlier = steps.drop_last();
        &&& workers_stop_idle(board, earlier)
        &&& steps.last() is StopWorker ==> after_steps(board, earlier).queue.len() == 0
    }
}

/// While a job waits, a worker is active.
pub proof fn law_waiting_jobs_have_a_worker(board: BoardView, steps: Seq<Step>)
    requires
        board.workers == 0,
        board.queue.len() == 0,
        only_workers_stop(board, steps),
        workers_stop_idle(board, steps),
    ensures
        after_steps(board, steps).queue.len() > 0 ==> active_workers(board, steps) == 1,
    decreases steps.len(),
{
    law_one_worker_at_a_time(board, steps);
    if steps.len() > 0 {
        law_waiting_jobs_have_a_worker(board, steps.drop_last());
        law_one_worker_at_a_time(board, steps.drop_last());
    }
}

/// A worker that looks for work stops only where no job waits any more, and then lowers the count
/// of workers by one; one that gets a job leaves the count alone.
pub proof fn law_workers_stop_with_an_empty_queue(board: BoardView)
    requires
        board.workers > 0,
    ensures
        next_found(board).1 is None ==> next_found(board).0.queue.len() == 0
            && next_found(board).0.workers == board.workers - 1,
        next_found(board).1 is Some ==> next_found(board).0.workers == board.workers,
    decreases board.queue.len(),
{
    if board.queue.len() > 0 {
        let job = board.queue[0];
        law_workers_stop_with_an_empty_queue(
            stepped(stepped(board, Step::Take), Step::Start { job }),
        );
    }
}

/// The jobs of a queue all differ in their identifiers.
pub open spec fn ids_differ(queue: Seq<Job>) -> bool {
    forall|i: int, j: int|
        0 <= i < j < queue.len() ==> (#[trigger] queue[i]).id != (#[trigger] queue[j]).id
}

/// A worker gets the first job of the queue that was not called off, and none just where all were.
pub proof fn law_worker_gets_first_job_left(board: BoardView)
    requires
        ids_differ(board.queue),
    ensures
        match next_found(board).1 {
            None => forall|i: int|
                0 <= i < board.queue.len() ==> board.cancelled.contains(
                    (#[trigger] board.queue[i]).id,
                ),
            Some(job) => exists|k: int|
                {
                    &&& 0 <= k < board.queue.len()
                    &&& #[trigger] board.queue[k] == job
                    &&& !board.cancelled.contains(job.id)
                    &&& forall|i: int|
                        0 <= i < k ==> board.cancelled.contains((#[trigger] board.queue[i]).id)
                },
        },
    decreases board.queue.len(),
{
    if board.queue.len() > 0 {
        let job = board.queue[0];
        if board.cancelled.contains(job.id) {
            let rest = stepped(stepped(board, Step::Take), Step::Start { job });
            assert(rest.queue =~= board.queue.drop_first());
            assert forall|i: int, j: int| 0 <= i < j < rest.queue.len() implies (
            #[trigger] rest.queue[i]).id != (#[trigger] rest.queue[j]).id by {
                assert(board.queue[i + 1].id != board.queue[j + 1].id);
            }
            assert forall|i: int| 0 <= i < rest.queue.len() implies rest.cancelled.contains(
                (#[trigger] rest.queue[i]).id,
            ) == board.cancelled.contains(board.queue[i + 1].id) by {
                assert(board.queue[0].id != board.queue[i + 1].id);
            }
            law_worker_gets_first_job_left(rest);
            match next_found(rest).1 {
                None => {
                    assert forall|i: int| 0 <= i < board.queue.len() implies board.cancelled.contains(
                        (#[trigger] board.queue[i]).id,
                    ) by {
                        if i > 0 {
                            assert(rest.cancelled.contains(rest.queue[i - 1].id));
                        }
                    }
                },
                Some(found) => {
                    let k = choose|k: int|
                        {
                            &&& 0 <= k < rest.queue.len()
                            &&& #[trigger] rest.queue[k] == found
                            &&& !rest.cancelled.contains(found.id)
                            &&& forall|i: int|
                                0 <= i < k ==> rest.cancelled.contains(
                                    (#[trigger] rest.queue[i]).id,
                                )
                        };
                    assert(board.queue[k + 1] == found);
                    assert forall|i: int| 0 <= i < k + 1 implies board.cancelled.contains(
                        (#[trigger] board.queue[i]).id,
                    ) by {
                        if i > 0 {
                            assert(rest.cancelled.contains(rest.queue[i - 1].id));
                        }
                    }
                },
            }
        } else {
            assert(board.queue[0] == job);
        }
    }
}

// ---------------------------------------------------------------------------------------------
// What holds of the service as a whole
// ---------------------------------------------------------------------------------------------

/// The board, whether a worker is active, and the job that the worker has.
#[verifier::ext_equal]
pub struct ServiceView {
    pub board: BoardView,
    pub worker: bool,
    pub current: Option<Job>,
}

/// What happens to the service: a request comes in, a job is called off, the worker looks for
/// work, the work of its job ends.
pub enum Event {
    Request { job: Job },
    Interrupt { id: u128 },
    Look,
    End { end: TaskEnd },
}

/// The service with nothing to do.
pub open spec fn is_idle(service: ServiceView) -> bool {
    &&& service.board.queue.len() == 0
    &&& service.board.running == Set::<u128>::empty()
    &&& service.board.workers == 0
    &&& !service.worker
    &&& service.current is None
}

/// An event is in its place: only a `Worker` looks for work, and only a `RunningJob` ends.
pub open spec fn can_happen(service: ServiceView, event: Event) -> bool {
    match event {
        Event::Look => service.worker && service.current is None,
        Event::End { .. } => service.current is Some,
        _ => true,
    }
}

/// The service once `event` has happened.
pub open spec fn happened(service: ServiceView, event: Event) -> ServiceView {
    match event {
        Event::Request { job } => ServiceView {
            board: stepped(service.board, Step::Submit { job }),
            worker: service.worker || service.board.workers == 0,
            ..service
        },
        Event::Interrupt { id } => ServiceView {
            board: stepped(service.board, Step::Interrupt { id }),
            ..service
        },
        Event::Look => {
            let (board, found) = next_found(service.board);
            ServiceView { board, worker: found is Some, current: found }
        },
        Event::End { end } => {
            let job = service.current->0;
            ServiceView {
                board: job_ended(service.board, job.id, job.module@, end),
                current: None,
                ..service
            }
        },
    }
}

/// The service once all of `events` have happened, in order.
pub open spec fn after_events(service: ServiceView, events: Seq<Event>) -> ServiceView
    decreases events.len(),
{
    if events.len() == 0 {
        service
    } else {
        happened(after_events(service, events.drop_last()), events.last())
    }
}

/// Each of `events` is in its place.
pub open spec fn can_follow(service: ServiceView, events: Seq<Event>) -> bool
    decreases events.len(),
{
    events.len() > 0 ==> {
        &&& can_follow(service, events.drop_last())
        &&& can_happen(after_events(service, events.drop_last()), events.last())
    }
}

/// The jobs that a look for work takes from the queue: those that were called off, and behind them
/// the one that it gets.
pub open spec fn looked_at(board: BoardView) -> Seq<Job>
    decreases board.queue.len(),
{
    if board.queue.len() == 0 {
        Seq::empty()
    } else {
        let job = board.queue[0];
        let started = stepped(stepped(board, Step::Take), Step::Start { job });
        if board.cancelled.contains(job.id) {
            seq![job] + looked_at(started)
        } else {
            seq![job]
        }
    }
}

/// The jobs that `events` request, in order.
pub open spec fn requested_jobs(events: Seq<Event>) -> Seq<Job>
    decreases events.len(),
{
    if events.len() == 0 {
        Seq::empty()
    } else {
        let earlier = requested_jobs(events.drop_last());
        match events.last() {
            Event::Request { job } => earlier.push(job),
            _ => earlier,
        }
    }
}

/// The jobs that `events` take from the queue, in order.
pub open spec fn dequeued_jobs(service: ServiceView, events: Seq<Event>) -> Seq<Job>
    decreases events.len(),
{
    if events.len() == 0 {
        Seq::empty()
    } else {
        let earlier = dequeued_jobs(service, events.drop_last());
        if events.last() is Look {
            earlier + looked_at(after_events(service, events.drop_last()).board)
        } else {
            earlier
        }
    }
}

/// The jobs whose work `events` start, in order.
pub open spec fn started_jobs(service: ServiceView, events: Seq<Event>) -> Seq<Job>
    decreases events.len(),
{
    if events.len() == 0 {
        Seq::empty()
    } else {
        let earlier = started_jobs(service, events.drop_last());
        match next_found(after_events(service, events.drop_last()).board).1 {
            Some(job) if events.last() is Look => earlier.push(job),
            _ => earlier,
        }
    }
}

/// The jobs whose work `events` end, in order.
pub open spec fn ended_jobs(service: ServiceView, events: Seq<Event>) -> Seq<Job>
    decreases events.len(),
{
    if events.len() == 0 {
        Seq::empty()
    } else {
        let earlier = ended_jobs(service, events.drop_last());
        if events.last() is End {
            earlier.push(after_events(service, events.drop_last()).current->0)
        } else {
            earlier
        }
    }
}

/// What a look for work leaves of what runs: the job that it gets is added, and nothing else.
proof fn lemma_look_runs_what_it_gets(board: BoardView)
    ensures
        next_found(board).0.running == match next_found(board).1 {
            None => board.running,
            Some(job) => board.running.insert(job.id),
        },
    decreases board.queue.len(),
{
    if board.queue.len() > 0 {
        let job = board.queue[0];
        lemma_look_runs_what_it_gets(stepped(stepped(board, Step::Take), Step::Start { job }));
    }
}

/// A look for work takes jobs from the front of the queue, and gets the last that it takes.
proof fn lemma_look_takes_the_front(board: BoardView)
    ensures
        looked_at(board) + next_found(board).0.queue == board.queue,
        next_found(board).1 matches Some(job) ==> looked_at(board).len() > 0 && looked_at(
            board,
        ).last() == job,
    decreases board.queue.len(),
{
    if board.queue.len() > 0 {
        let job = board.queue[0];
        let rest = stepped(stepped(board, Step::Take), Step::Start { job });
        lemma_look_takes_the_front(rest);
        assert(seq![job] + board.queue.drop_first() =~= board.queue);
        assert(seq![job] + (looked_at(rest) + next_found(rest).0.queue) =~= (seq![job] + looked_at(
            rest,
        )) + next_found(rest).0.queue);
    } else {
        assert(looked_at(board) + next_found(board).0.queue =~= board.queue);
    }
}

/// No two jobs run at a time: only the job that the worker has runs, and it has at most one. The
/// board counts the worker just while there is one, and there is one while a job waits or runs.
pub proof fn law_one_job_at_a_time(service: ServiceView, events: Seq<Event>)
    requires
        is_idle(service),
        can_follow(service, events),
    ensures
        ({
            let now = after_events(service, events);
            &&& forall|id: u128| #[trigger]
                now.board.running.contains(id) ==> now.current is Some && now.current->0.id == id
            &&& now.board.workers == if now.worker {
                1int
            } else {
                0int
            }
            &&& now.board.queue.len() > 0 || now.current is Some ==> now.worker
        }),
    decreases events.len(),
{
    if events.len() > 0 {
        law_one_job_at_a_time(service, events.drop_last());
        let before = after_events(service, events.drop_last());
        if events.last() is Look {
            lemma_look_runs_what_it_gets(before.board);
            law_workers_stop_with_an_empty_queue(before.board);
        }
    }
}

/// A job starts only after the one before has ended: the jobs that ended, and behind them the one
/// that the worker has, are the jobs that started, in the same order.
pub proof fn law_jobs_run_one_after_the_other(service: ServiceView, events: Seq<Event>)
    requires
        is_idle(service),
        can_follow(service, events),
    ensures
        started_jobs(service, events) == match after_events(service, events).current {
            None => ended_jobs(service, events),
            Some(job) => ended_jobs(service, events).push(job),
        },
    decreases events.len(),
{
    if events.len() > 0 {
        law_jobs_run_one_after_the_other(service, events.drop_last());
    }
}

/// `part` is `whole` with some of its jobs left out.
pub open spec fn keeps_order(part: Seq<Job>, whole: Seq<Job>) -> bool {
    exists|places: Seq<int>| #[trigger] picks(part, whole, places)
}

/// `part` is what stands in `whole` at `places`, which go up.
pub open spec fn picks(part: Seq<Job>, whole: Seq<Job>, places: Seq<int>) -> bool {
    &&& places.len() == part.len()
    &&& forall|i: int|
        0 <= i < places.len() ==> 0 <= #[trigger] places[i] < whole.len() && whole[places[i]]
            == part[i]
    &&& forall|i: int, j: int|
        0 <= i < j < places.len() ==> #[trigger] places[i] < #[trigger] places[j]
}

/// Jobs are taken from the queue in the order in which they were requested, none twice and none
/// left out; those that start do so in that order too.
pub proof fn law_jobs_start_in_order(service: ServiceView, events: Seq<Event>)
    requires
        is_idle(service),
    ensures
        dequeued_jobs(service, events) + after_events(service, events).board.queue
            == requested_jobs(events),
        keeps_order(started_jobs(service, events), requested_jobs(events)),
{
    let places = lemma_places(service, events);
    let dequeued = dequeued_jobs(service, events);
    let requested = requested_jobs(events);
    let started = started_jobs(service, events);
    assert forall|i: int| 0 <= i < places.len() implies 0 <= #[trigger] places[i] < requested.len()
        && requested[places[i]] == started[i] by {
        assert(requested[places[i]] == dequeued[places[i]]);
    }
    assert(picks(started, requested, places));
}

/// Where the jobs that start stand among those that are taken from the queue.
proof fn lemma_places(service: ServiceView, events: Seq<Event>) -> (places: Seq<int>)
    requires
        is_idle(service),
    ensures
        dequeued_jobs(service, events) + after_events(service, events).board.queue
            == requested_jobs(events),
        picks(started_jobs(service, events), dequeued_jobs(service, events), places),
    decreases events.len(),
{
    if events.len() == 0 {
        assert(dequeued_jobs(service, events) + service.board.queue =~= requested_jobs(events));
        Seq::empty()
    } else {
        let earlier = events.drop_last();
        let before = after_events(service, earlier).board;
        let places = lemma_places(service, earlier);
        let dequeued = dequeued_jobs(service, earlier);
        match events.last() {
            Event::Request { job } => {
                assert(dequeued + before.queue.push(job) =~= (dequeued + before.queue).push(job));
                places
            },
            Event::Look => {
                lemma_look_takes_the_front(before);
                let taken = looked_at(before);
                let rest = next_found(before).0.queue;
                assert((dequeued + taken) + rest =~= dequeued + (taken + rest));
                let all = dequeued + taken;
                assert forall|i: int| 0 <= i < places.len() implies 0 <= #[trigger] places[i]
                    < all.len() && all[places[i]] == started_jobs(service, earlier)[i] by {
                    assert(all[places[i]] == dequeued[places[i]]);
                }
                match next_found(before).1 {
                    None => places,
                    Some(job) => {
                        assert(all[all.len() - 1] == job);
                        places.push(all.len() - 1)
                    },
                }
            },
            _ => places,
        }
    }
}

/// However the work of a job ends, the worker stays active and can look for work next.
pub proof fn law_ended_jobs_do_not_stop_the_worker(service: ServiceView, end: TaskEnd)
    requires
        service.worker,
        service.current is Some,
    ensures
        ({
            let next = happened(service, Event::End { end });
            &&& next.worker
            &&& next.board.workers == service.board.workers
            &&& next.board.queue == service.board.queue
            &&& can_happen(next, Event::Look)
        }),
{
}

} // verus!
