//! What a job is and becomes.
use crate::service::{
    job_ended, next_found, planned_task, requested_job, stepped, BoardView, Job, Step,
    SubmitPayload, TaskEnd, TaskPlanView, TaskState,
};
use vstd::prelude::*;

verus! {

/// The names of the modules are different texts.
proof fn lemma_modules_differ()
    ensures
        "classify_versions"@ != "original_download"@,
        "classify_versions"@ != "launch_game"@,
        "original_download"@ != "launch_game"@,
{
    reveal_strlit("classify_versions");
    reveal_strlit("original_download");
    reveal_strlit("launch_game");
    assert("classify_versions"@.len() == 17 && "original_download"@.len() == 17
        && "launch_game"@.len() == 11);
    assert("classify_versions"@[0] != "original_download"@[0]);
}

/// A download is of the version that the request names, and of the usual one only where it names
/// none. It goes to the directory of the game.
pub proof fn law_requested_version_is_downloaded(job: Job)
    requires
        job.module@ == "original_download"@,
    ensures
        planned_task(job) matches TaskPlanView::OriginalDownload { version, directory } && {
            &&& job.version matches Some(wanted) ==> version == wanted@
            &&& job.version is None ==> version == "1.20.4"@
            &&& directory == ".minecraft"@
        },
{
    lemma_modules_differ();
}

/// A launch takes each value that the request gives, each to its own purpose, and the usual one
/// only where it gives none.
pub proof fn law_requested_values_are_used(job: Job)
    requires
        job.module@ == "launch_game"@,
    ensures
        planned_task(job) matches TaskPlanView::LaunchGame {
            minecraft_path,
            java_path,
            wrapper_path,
            launcher_version,
            max_memory,
            version_type,
            version,
            player,
            token,
            uuid,
        } && {
            &&& job.minecraft_path matches Some(given) ==> minecraft_path == given@
            &&& job.java_path matches Some(given) ==> java_path == given@
            &&& job.wrapper_path matches Some(given) ==> wrapper_path == given@
            &&& job.launcher_version matches Some(given) ==> launcher_version == given@
            &&& job.max_memory matches Some(given) ==> max_memory == given@
            &&& job.version_type matches Some(given) ==> version_type == given@
            &&& job.version matches Some(given) ==> version == given@
            &&& job.player matches Some(given) ==> player == given@
            &&& job.token matches Some(given) ==> token == given@
            &&& job.uuid matches Some(given) ==> uuid == given@
            &&& job.minecraft_path is None ==> minecraft_path == "C:/Users/smh20/.minecraftx"@
            &&& job.java_path is None ==> java_path
                == "C:/Program Files/Java/jdk-17/bin/java.exe"@
            &&& job.wrapper_path is None ==> wrapper_path
                == "C:/Users/smh20/Documents/Rust/java_launch_wrapper-1.4.3.jar"@
            &&& job.launcher_version is None ==> launcher_version == "1.0.0"@
            &&& job.max_memory is None ==> max_memory == "16384"@
            &&& job.version_type is None ==> version_type == "NULL11034"@
            &&& job.version is None ==> version == "1.19.2"@
            &&& job.player is None ==> player == "Player"@
            &&& job.token is None ==> token == "mc_token"@
            &&& job.uuid is None ==> uuid == "uuid"@
        },
{
    lemma_modules_differ();
}

/// A job of another module than the known ones does nothing but report its name, and only the job
/// of that module sorts the versions.
pub proof fn law_unknown_modules_are_reported(job: Job)
    ensures
        planned_task(job) is ClassifyVersions <==> job.module@ == "classify_versions"@,
        planned_task(job) is OriginalDownload <==> job.module@ == "original_download"@,
        planned_task(job) is LaunchGame <==> job.module@ == "launch_game"@,
        planned_task(job) matches TaskPlanView::Report { text } ==> text == "Unknown module: "@
            + job.module@,
{
    lemma_modules_differ();
}

/// A job keeps all that was requested, each value as what it was given for.
pub proof fn law_jobs_keep_what_was_requested(id: u128, payload: SubmitPayload)
    ensures
        ({
            let job = requested_job(id, payload);
            &&& job.id == id
            &&& job.module == payload.module
            &&& job.version == payload.version
            &&& job.minecraft_path == payload.minecraft_path
            &&& job.java_path == payload.java_path
            &&& job.wrapper_path == payload.wrapper_path
            &&& job.launcher_version == payload.launcher_version
            &&& job.max_memory == payload.max_memory
            &&& job.version_type == payload.version_type
            &&& job.player == payload.player
            &&& job.token == payload.token
            &&& job.uuid == payload.uuid
        }),
{
}

/// A request is noted as queued and waits behind all others; a worker is counted from then on, and
/// nothing else changes.
pub proof fn law_requests_are_queued(board: BoardView, job: Job)
    ensures
        ({
            let after = stepped(board, Step::Submit { job });
            &&& after.status[job.id].state is Queued
            &&& after.status[job.id].module == job.module@
            &&& after.status[job.id].info.len() == 0
            &&& after.queue.len() == board.queue.len() + 1
            &&& after.queue.last() == job
            &&& after.queue.drop_last() == board.queue
            &&& after.running == board.running
            &&& after.cancelled == board.cancelled
            &&& after.workers > 0
            &&& board.workers > 0 ==> after.workers == board.workers
        }),
{
    reveal_strlit("");
    assert(board.queue.push(job).drop_last() =~= board.queue);
}

/// A job that starts is noted as running, under its module and without further information.
pub proof fn law_started_jobs_run(board: BoardView, job: Job)
    requires
        !board.cancelled.contains(job.id),
    ensures
        ({
            let after = stepped(board, Step::Start { job });
            &&& after.status[job.id].state is Running
            &&& after.status[job.id].module == job.module@
            &&& after.status[job.id].info.len() == 0
            &&& after.cancelled == board.cancelled
            &&& after.queue == board.queue
            &&& after.workers == board.workers
        }),
{
    reveal_strlit("");
}

/// A worker with a job waiting gets the very first where that was not called off: the job is noted
/// as running, it can be aborted from then on, and the others go on waiting.
pub proof fn law_first_job_is_run(board: BoardView)
    requires
        board.queue.len() > 0,
        !board.cancelled.contains(board.queue[0].id),
    ensures
        ({
            let (after, found) = next_found(board);
            let job = board.queue[0];
            &&& found == Some(job)
            &&& after.status[job.id].state is Running
            &&& after.running.contains(job.id)
            &&& after.queue == board.queue.drop_first()
            &&& after.workers == board.workers
        }),
{
}

/// A job that ends is noted under its module with what came of it: its text where it was completed,
/// its error where it failed, and that it was interrupted where it was aborted. It can no longer be
/// aborted, and nothing else changes.
pub proof fn law_ended_jobs_are_noted(
    board: BoardView,
    id: u128,
    module: Seq<char>,
    end: TaskEnd,
)
    ensures
        ({
            let after = job_ended(board, id, module, end);
            &&& after.status.contains_key(id)
            &&& after.status[id].module == module
            &&& match end {
                TaskEnd::Completed(text) => after.status[id].state is Completed
                    && after.status[id].info == text@,
                TaskEnd::Failed(text) => after.status[id].state is Failed && after.status[id].info
                    == text@,
                TaskEnd::Aborted => after.status[id].state is Canceled && after.status[id].info
                    == "by interrupt"@,
            }
            &&& !after.running.contains(id)
            &&& forall|other: u128|
                other != id ==> #[trigger] after.running.contains(other)
                    == board.running.contains(other)
            &&& after.queue == board.queue
            &&& after.cancelled == board.cancelled
            &&& after.workers == board.workers
        }),
{
}

/// Calling off a job that runs aborts it; calling off any other keeps it from being run. Either way
/// it is noted as canceled at once, and what waits stays in the queue.
pub proof fn law_called_off_jobs_are_noted(board: BoardView, id: u128)
    ensures
        ({
            let after = stepped(board, Step::Interrupt { id });
            &&& after.status.contains_key(id)
            &&& after.status[id].state is Canceled
            &&& !after.running.contains(id)
            &&& if board.running.contains(id) {
                &&& after.status[id].module == "running"@
                &&& after.status[id].info == "aborted"@
                &&& after.cancelled == board.cancelled
            } else {
                &&& after.status[id].module == "queued"@
                &&& after.status[id].info == "canceled before run"@
                &&& after.cancelled.contains(id)
            }
            &&& after.queue == board.queue
            &&& after.workers == board.workers
        }),
{
}

/// Each state has its own name.
pub proof fn law_states_have_names(state: TaskState)
    ensures
        state is Queued <==> state.spelled() == "queued"@,
        state is Running <==> state.spelled() == "running"@,
        state is Completed <==> state.spelled() == "completed"@,
        state is Failed <==> state.spelled() == "failed"@,
        state is Canceled <==> state.spelled() == "canceled"@,
{
    reveal_strlit("queued");
    reveal_strlit("running");
    reveal_strlit("completed");
    reveal_strlit("failed");
    reveal_strlit("canceled");
    assert("queued"@.len() == 6 && "running"@.len() == 7 && "completed"@.len() == 9
        && "failed"@.len() == 6 && "canceled"@.len() == 8);
    assert("queued"@[0] != "failed"@[0]);
}

} // verus!
