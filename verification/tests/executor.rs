use robot_agent::docker::DockerLaunch;
use robot_agent::docker::DockerLaunchArgs;
use robot_agent::docker::DockerMap;
use robot_agent::docker::ExecAction;
use robot_agent::docker::ExecEvent;
use robot_agent::docker::ExecMachine;
use robot_agent::docker::split_spaces;
use robot_agent::docker::storage_key;

fn args(custom_cmd: Option<&str>, store_data: Option<bool>) -> DockerLaunchArgs {
    DockerLaunchArgs {
        image: "alpine:latest".to_string(),
        container_name: "job-ctr".to_string(),
        custom_cmd: custom_cmd.map(|s| s.to_string()),
        save_logs: None,
        store_data,
        network_mode: "bridge".to_string(),
        ports: vec![],
        volumes: vec![DockerMap::new("/host/a".to_string(), "/ctr/a".to_string())],
        env: vec!["A=1".to_string()],
        privileged: false,
    }
}

fn begin(custom_cmd: Option<&str>, store_data: Option<bool>) -> ExecMachine {
    let launch = DockerLaunch { args: args(custom_cmd, store_data) };
    let mut m = launch.start("job-1".to_string());
    match m.step(ExecEvent::Begin) {
        ExecAction::PullImage { image } => assert_eq!(image, "alpine:latest"),
        _ => panic!("the first action must pull the image"),
    }
    m
}

#[test]
fn log_branch_reports_done_with_collected_logs() {
    let mut m = begin(None, None);
    let action = m.step(ExecEvent::PullOk);
    let container_id = match action {
        ExecAction::CreateContainer { name, config } => {
            assert_eq!(name, "job-ctr");
            assert_eq!(config.image, "alpine:latest");
            assert_eq!(config.env, vec!["A=1".to_string()]);
            assert_eq!(config.network_mode, "bridge");
            assert!(!config.privileged);
            assert_eq!(config.binds, vec!["/host/a:/ctr/a".to_string()]);
            // non-interactive: no terminal, no command override
            assert!(!config.tty);
            assert!(config.cmd.is_none());
            "ctr-42".to_string()
        }
        _ => panic!("after the pull the container is created"),
    };
    match m.step(ExecEvent::ContainerCreated(container_id.clone())) {
        ExecAction::StartContainer { container_id: c } => assert_eq!(c, "ctr-42"),
        _ => panic!("a created container is started"),
    }
    match m.step(ExecEvent::Started) {
        ExecAction::StreamLogs { container_id: c } => assert_eq!(c, "ctr-42"),
        _ => panic!("a non-interactive job follows the log stream"),
    }
    assert!(matches!(
        m.step(ExecEvent::LogChunk(b"hello\n".to_vec())),
        ExecAction::AwaitLogs
    ));
    match m.step(ExecEvent::LogsEnded) {
        ExecAction::RemoveContainer { container_id: c } => assert_eq!(c, "ctr-42"),
        _ => panic!("the container is removed when the stream ends"),
    }
    match m.step(ExecEvent::Removed) {
        ExecAction::Report { outcome } => {
            assert_eq!(outcome.job_id, "job-1");
            assert_eq!(outcome.status, "done");
            assert_eq!(outcome.logs, "hello\n");
        }
        _ => panic!("removal completes the job"),
    }
}

#[test]
fn pull_failure_reports_error_and_creates_no_container() {
    let mut m = begin(None, None);
    match m.step(ExecEvent::PullFailed("no such image".to_string())) {
        ExecAction::Report { outcome } => {
            assert_eq!(outcome.job_id, "job-1");
            assert_eq!(outcome.status, "error");
            assert_eq!(outcome.logs, "no such image");
        }
        _ => panic!("a failed pull ends the job at once"),
    }
    // the machine is terminal: further events change nothing
    assert!(matches!(m.step(ExecEvent::PullOk), ExecAction::Idle));
    assert!(matches!(
        m.step(ExecEvent::ContainerCreated("x".to_string())),
        ExecAction::Idle
    ));
}

#[test]
fn interactive_branch_runs_exec_session_and_relays_output() {
    let mut m = begin(Some("echo hi"), None);
    match m.step(ExecEvent::PullOk) {
        ExecAction::CreateContainer { config, .. } => {
            // interactive: a terminal and a plain holding shell as entry
            assert!(config.tty);
            assert_eq!(config.cmd, Some(vec!["sh".to_string()]));
        }
        _ => panic!("after the pull the container is created"),
    }
    m.step(ExecEvent::ContainerCreated("ctr".to_string()));
    match m.step(ExecEvent::Started) {
        ExecAction::CreateExec { container_id, cmd, tty } => {
            assert_eq!(container_id, "ctr");
            // the user command is issued as the exec, split on spaces
            assert_eq!(cmd, vec!["echo".to_string(), "hi".to_string()]);
            assert!(tty);
        }
        _ => panic!("an interactive job creates an exec session"),
    }
    match m.step(ExecEvent::ExecCreated("ex-1".to_string())) {
        ExecAction::StartExec { exec_id } => assert_eq!(exec_id, "ex-1"),
        _ => panic!("the exec session is attached next"),
    }
    match m.step(ExecEvent::ExecStarted) {
        ExecAction::ResizeExec { exec_id, height, width } => {
            assert_eq!(exec_id, "ex-1");
            assert_eq!(height, 35);
            assert_eq!(width, 100);
        }
        _ => panic!("the exec terminal is sized to the fixed geometry"),
    }
    assert!(matches!(m.step(ExecEvent::Resized), ExecAction::AwaitSession));
    match m.step(ExecEvent::OutputChunk(b"hi\r\n".to_vec())) {
        ExecAction::RelayOutput { chunk } => assert_eq!(chunk, "hi\r\n"),
        _ => panic!("session output is relayed toward the tunnel"),
    }
    match m.step(ExecEvent::SessionEnded) {
        ExecAction::RemoveContainer { container_id } => assert_eq!(container_id, "ctr"),
        _ => panic!("the container is removed when the session ends"),
    }
    match m.step(ExecEvent::Removed) {
        ExecAction::Report { outcome } => {
            assert_eq!(outcome.status, "done");
            // output was streamed live, so the outcome carries no logs
            assert_eq!(outcome.logs, "");
        }
        _ => panic!("removal completes the job"),
    }
}

#[test]
fn store_data_adds_bind_and_uploads_after_removal() {
    let mut m = begin(None, Some(true));
    match m.step(ExecEvent::PullOk) {
        ExecAction::PrepareDataDir { job_id } => assert_eq!(job_id, "job-1"),
        _ => panic!("result persistence prepares the data directory first"),
    }
    match m.step(ExecEvent::DataDirReady(Some("/data/jobs/job-1".to_string()))) {
        ExecAction::CreateContainer { config, .. } => {
            assert_eq!(
                config.binds,
                vec![
                    "/host/a:/ctr/a".to_string(),
                    "/data/jobs/job-1:/merklebot/job_data/".to_string(),
                ]
            );
        }
        _ => panic!("the data directory joins the binds"),
    }
    m.step(ExecEvent::ContainerCreated("ctr".to_string()));
    m.step(ExecEvent::Started);
    m.step(ExecEvent::LogsEnded);
    match m.step(ExecEvent::Removed) {
        ExecAction::EnumerateFiles { job_id } => assert_eq!(job_id, "job-1"),
        // uploads happen only after the container has been removed
        _ => panic!("after removal the result directory is enumerated"),
    }
    match m.step(ExecEvent::FilesListed {
        data_root: "/data/".to_string(),
        paths: Some(vec!["/data/jobs/job-1/out.txt".to_string()]),
    }) {
        ExecAction::Upload { requests } => {
            assert_eq!(requests.len(), 1);
            assert_eq!(requests[0].local_path, "/data/jobs/job-1/out.txt");
            assert_eq!(requests[0].key, "jobs/job-1/out.txt");
            assert_eq!(requests[0].job_id, "job-1");
        }
        _ => panic!("each collected file is uploaded exactly once"),
    }
    match m.step(ExecEvent::UploadsDone) {
        ExecAction::Report { outcome } => assert_eq!(outcome.status, "done"),
        _ => panic!("the job completes after the uploads"),
    }
}

#[test]
fn dir_creation_failure_skips_persistence_bind() {
    let mut m = begin(None, Some(true));
    m.step(ExecEvent::PullOk);
    match m.step(ExecEvent::DataDirReady(None)) {
        ExecAction::CreateContainer { config, .. } => {
            // the job proceeds without the extra mount
            assert_eq!(config.binds, vec!["/host/a:/ctr/a".to_string()]);
        }
        _ => panic!("the job proceeds without result persistence"),
    }
}

#[test]
fn enumeration_failure_keeps_the_done_outcome() {
    let mut m = begin(None, Some(true));
    m.step(ExecEvent::PullOk);
    m.step(ExecEvent::DataDirReady(Some("/data/jobs/job-1".to_string())));
    m.step(ExecEvent::ContainerCreated("ctr".to_string()));
    m.step(ExecEvent::Started);
    assert!(matches!(
        m.step(ExecEvent::LogChunk(b"ok\n".to_vec())),
        ExecAction::AwaitLogs
    ));
    m.step(ExecEvent::LogsEnded);
    m.step(ExecEvent::Removed);
    match m.step(ExecEvent::FilesListed { data_root: "/data/".to_string(), paths: None }) {
        ExecAction::Report { outcome } => {
            assert_eq!(outcome.status, "done");
            assert_eq!(outcome.logs, "ok\n");
        }
        _ => panic!("a failed enumeration does not change the outcome"),
    }
}

#[test]
fn start_failure_still_removes_the_container() {
    let mut m = begin(None, None);
    m.step(ExecEvent::PullOk);
    m.step(ExecEvent::ContainerCreated("ctr".to_string()));
    match m.step(ExecEvent::StartFailed("cannot start".to_string())) {
        ExecAction::RemoveContainer { container_id } => assert_eq!(container_id, "ctr"),
        _ => panic!("a created container is removed even after a failure"),
    }
    match m.step(ExecEvent::Removed) {
        ExecAction::Report { outcome } => {
            assert_eq!(outcome.status, "error");
            assert_eq!(outcome.logs, "cannot start");
        }
        _ => panic!("the original failure is reported"),
    }
}

#[test]
fn remove_failure_surfaces_as_job_error() {
    let mut m = begin(None, None);
    m.step(ExecEvent::PullOk);
    m.step(ExecEvent::ContainerCreated("ctr".to_string()));
    m.step(ExecEvent::Started);
    m.step(ExecEvent::LogsEnded);
    match m.step(ExecEvent::RemoveFailed("rm failed".to_string())) {
        ExecAction::Report { outcome } => {
            assert_eq!(outcome.status, "error");
            assert_eq!(outcome.logs, "rm failed");
        }
        _ => panic!("a failed removal is the job's error"),
    }
}

#[test]
fn earlier_failure_wins_over_remove_failure() {
    let mut m = begin(None, None);
    m.step(ExecEvent::PullOk);
    m.step(ExecEvent::ContainerCreated("ctr".to_string()));
    m.step(ExecEvent::StartFailed("first error".to_string()));
    match m.step(ExecEvent::RemoveFailed("second error".to_string())) {
        ExecAction::Report { outcome } => {
            assert_eq!(outcome.status, "error");
            assert_eq!(outcome.logs, "first error");
        }
        _ => panic!("the first failure is the one reported"),
    }
}

#[test]
fn split_spaces_matches_plain_space_splitting() {
    let one = |v: Vec<&str>| v.into_iter().map(|s| s.to_string()).collect::<Vec<_>>();
    assert_eq!(split_spaces("echo hi"), one(vec!["echo", "hi"]));
    assert_eq!(split_spaces(""), one(vec![""]));
    assert_eq!(split_spaces("single"), one(vec!["single"]));
    // consecutive spaces yield empty tokens: there is no quoting support
    assert_eq!(split_spaces("a  b"), one(vec!["a", "", "b"]));
    assert_eq!(split_spaces(" x"), one(vec!["", "x"]));
}

#[test]
fn storage_key_strips_the_data_root_prefix() {
    assert_eq!(storage_key("/data/jobs/j/out.txt", "/data/"), "jobs/j/out.txt");
    assert_eq!(storage_key("/elsewhere/out.txt", "/data/"), "/elsewhere/out.txt");
    assert_eq!(storage_key("/data/", "/data/"), "");
}

#[test]
fn bind_string_renders_key_colon_value() {
    let m = DockerMap::new("8080".to_string(), "80".to_string());
    assert_eq!(m.bind_string(), "8080:80");
}
