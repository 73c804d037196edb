use mc_launcher::service::{
    build_task, done_message, Job, SubmitPayload, TaskBoard, TaskEnd, TaskPlan, TaskState, Worker,
};

fn payload(module: &str) -> SubmitPayload {
    SubmitPayload {
        module: module.to_string(),
        version: None,
        minecraft_path: None,
        java_path: None,
        wrapper_path: None,
        launcher_version: None,
        max_memory: None,
        version_type: None,
        player: None,
        token: None,
        uuid: None,
    }
}

fn job(module: &str) -> Job {
    let mut board = TaskBoard::new();
    let worker = board.submit(1, payload(module)).unwrap();
    worker.next_job(&mut board).unwrap().0
}

/// Has the next job run and end, and tells which it was.
fn worked(board: &mut TaskBoard, worker: Worker) -> Option<(u128, Worker)> {
    let (job, running) = worker.next_job(board)?;
    let (worker, message) = running.end(board, TaskEnd::Completed(String::new()));
    assert_eq!(message, job.module + " done");
    Some((job.id, worker))
}

/// What the board knows of a job: its state, its module and the rest.
fn known(board: &TaskBoard, id: u128) -> (String, String, String) {
    let reports = board.list_tasks();
    let report = reports.iter().find(|report| report.id == id).unwrap();
    (report.status.state.name(), report.status.module.clone(), report.status.info.clone())
}

fn status(state: &str, module: &str, info: &str) -> (String, String, String) {
    (state.to_string(), module.to_string(), info.to_string())
}

#[test]
fn states_have_names() {
    assert_eq!(TaskState::Queued.name(), "queued");
    assert_eq!(TaskState::Running.name(), "running");
    assert_eq!(TaskState::Completed.name(), "completed");
    assert_eq!(TaskState::Failed.name(), "failed");
    assert_eq!(TaskState::Canceled.name(), "canceled");
}

#[test]
fn modules_choose_the_work() {
    assert!(matches!(build_task(job("classify_versions")), TaskPlan::ClassifyVersions));
    match build_task(job("original_download")) {
        TaskPlan::OriginalDownload { version, directory } => {
            assert_eq!(version, "1.20.4");
            assert_eq!(directory, ".minecraft");
        }
        _ => panic!("the job is a download"),
    }
    match build_task(job("nothing")) {
        TaskPlan::Report { text } => assert_eq!(text, "Unknown module: nothing"),
        _ => panic!("the module is unknown"),
    }
}

#[test]
fn games_are_launched_with_defaults() {
    match build_task(job("launch_game")) {
        TaskPlan::LaunchGame { config, version, player, token, uuid } => {
            assert_eq!(config.minecraft_path, "C:/Users/smh20/.minecraftx");
            assert_eq!(config.java_path, "C:/Program Files/Java/jdk-17/bin/java.exe");
            assert_eq!(
                config.wrapper_path,
                "C:/Users/smh20/Documents/Rust/java_launch_wrapper-1.4.3.jar"
            );
            assert_eq!(config.launcher_version, "1.0.0");
            assert_eq!(config.max_memory, "16384");
            assert_eq!(config.version_type, "NULL11034");
            assert_eq!(version, "1.19.2");
            assert_eq!(player, "Player");
            assert_eq!(token, "mc_token");
            assert_eq!(uuid, "uuid");
        }
        _ => panic!("the job is a launch"),
    }
}

#[test]
fn games_are_launched_as_requested() {
    let mut wanted = job("launch_game");
    wanted.version = Some("1.8.9".to_string());
    wanted.player = Some("Alex".to_string());
    wanted.max_memory = Some("2048".to_string());
    match build_task(wanted) {
        TaskPlan::LaunchGame { config, version, player, token, .. } => {
            assert_eq!(config.max_memory, "2048");
            assert_eq!(version, "1.8.9");
            assert_eq!(player, "Alex");
            assert_eq!(token, "mc_token");
        }
        _ => panic!("the job is a launch"),
    }
}

#[test]
fn first_request_starts_a_worker() {
    let mut board = TaskBoard::new();
    assert!(board.submit(1, payload("a")).is_some());
    assert!(board.submit(2, payload("b")).is_none());
    assert_eq!(known(&board, 1), status("queued", "a", ""));
    assert_eq!(known(&board, 2), status("queued", "b", ""));
}

#[test]
fn workers_are_started_where_none_is_active() {
    let mut board = TaskBoard::new();
    let worker = board.submit(1, payload("a")).unwrap();
    let (_, worker) = worked(&mut board, worker).unwrap();
    assert!(board.submit(2, payload("b")).is_none());
    let (_, worker) = worked(&mut board, worker).unwrap();
    assert!(worked(&mut board, worker).is_none());
    let worker = board.submit(3, payload("c")).unwrap();
    assert_eq!(worked(&mut board, worker).map(|done| done.0), Some(3));
}

#[test]
fn jobs_run_one_after_the_other_and_in_order() {
    let mut board = TaskBoard::new();
    let mut worker = board.submit(1, payload("a")).unwrap();
    for id in 2..4 {
        assert!(board.submit(id, payload("a")).is_none());
    }
    for id in 1..4 {
        let (job, running) = worker.next_job(&mut board).unwrap();
        assert_eq!(job.id, id);
        let active = board.list_tasks();
        let active: Vec<u128> = active
            .iter()
            .filter(|report| matches!(report.status.state, TaskState::Running))
            .map(|report| report.id)
            .collect();
        assert_eq!(active, vec![id]);
        worker = running.end(&mut board, TaskEnd::Failed("no".to_string())).0;
    }
    assert!(worker.next_job(&mut board).is_none());
}

#[test]
fn jobs_run_and_end() {
    let mut board = TaskBoard::new();
    let worker = board.submit(7, payload("classify_versions")).unwrap();
    let (job, running) = worker.next_job(&mut board).unwrap();
    assert_eq!(job.id, 7);
    assert_eq!(known(&board, 7), status("running", "classify_versions", ""));
    let (worker, message) = running.end(&mut board, TaskEnd::Completed("all".to_string()));
    assert_eq!(message, "classify_versions done");
    assert_eq!(known(&board, 7), status("completed", "classify_versions", "all"));
    board.submit(8, payload("launch_game"));
    let (_, running) = worker.next_job(&mut board).unwrap();
    running.end(&mut board, TaskEnd::Failed("no java".to_string()));
    assert_eq!(known(&board, 8), status("failed", "launch_game", "no java"));
    assert_eq!(board.list_tasks().len(), 2);
    assert_eq!(done_message("x"), "x done");
}

#[test]
fn running_jobs_are_aborted() {
    let mut board = TaskBoard::new();
    let worker = board.submit(7, payload("launch_game")).unwrap();
    let (_, running) = worker.next_job(&mut board).unwrap();
    let answer = board.interrupt(7);
    assert!(answer.abort);
    assert_eq!(answer.reply, "running task canceled");
    assert_eq!(known(&board, 7), status("canceled", "running", "aborted"));
    let (worker, _) = running.end(&mut board, TaskEnd::Aborted);
    assert_eq!(known(&board, 7), status("canceled", "launch_game", "by interrupt"));
    assert!(!board.interrupt(7).abort);
    board.submit(8, payload("a"));
    assert_eq!(worked(&mut board, worker).map(|done| done.0), Some(8));
}

#[test]
fn waiting_jobs_are_called_off() {
    let mut board = TaskBoard::new();
    let worker = board.submit(1, payload("a")).unwrap();
    board.submit(2, payload("b"));
    let answer = board.interrupt(1);
    assert!(!answer.abort);
    assert_eq!(answer.reply, "queued task canceled");
    assert_eq!(known(&board, 1), status("canceled", "queued", "canceled before run"));
    let (job, _) = worker.next_job(&mut board).unwrap();
    assert_eq!(job.id, 2);
    assert_eq!(known(&board, 1), status("canceled", "a", "canceled in queue"));
    assert_eq!(known(&board, 2), status("running", "b", ""));
}

#[test]
fn calling_off_holds_for_one_turn() {
    let mut board = TaskBoard::new();
    board.interrupt(1);
    let worker = board.submit(1, payload("a")).unwrap();
    board.submit(1, payload("a"));
    assert_eq!(known(&board, 1), status("queued", "a", ""));
    let (job, _) = worker.next_job(&mut board).unwrap();
    assert_eq!(job.id, 1);
    assert_eq!(known(&board, 1), status("running", "a", ""));
}

#[test]
fn other_jobs_are_left_alone() {
    let mut board = TaskBoard::new();
    let worker = board.submit(1, payload("a")).unwrap();
    board.submit(2, payload("b"));
    let (_, running) = worker.next_job(&mut board).unwrap();
    board.interrupt(1);
    let (worker, _) = running.end(&mut board, TaskEnd::Aborted);
    assert_eq!(known(&board, 2), status("queued", "b", ""));
    let (job, _) = worker.next_job(&mut board).unwrap();
    assert_eq!(job.id, 2);
    assert!(board.interrupt(2).abort);
    assert_eq!(board.list_tasks().len(), 2);
}
