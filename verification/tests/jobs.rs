use pftp::file_transfer::{FileTransfer, FileTransferError, TransferStep};
use pftp::handshake::{ConnectCommand, ConnectionError, ConnectionErrorKind};
use pftp::job::{HostJob, HostOutcome, HostTarget, JobCommand, JobEvent, JobPhase, JobState};
use pftp::orchestrator::{collect, every_host_failed, exit_code, plan, Joined};
use pftp::transfer::{FileFailure, TransferCommand, TransferEvent};
use pftp::walk::FileEntry;

fn target(name: &str, address: &str, output_dir: Option<&str>) -> HostTarget {
    HostTarget {
        name: name.to_string(),
        address: address.to_string(),
        username: "deploy".to_string(),
        credential: "secret".to_string(),
        output_dir: output_dir.map(|d: &str| d.to_string()),
    }
}

fn entry(path: &str) -> FileEntry {
    FileEntry { path: path.to_string() }
}

fn unreachable_host() -> ConnectionError {
    ConnectionError { kind: ConnectionErrorKind::Unreachable, detail: "no route to host".to_string() }
}

fn fresh_job(name: &str) -> HostJob {
    HostJob::new(&target(name, "sftp://10.0.0.1:22", None), &"/in".to_string(), &"/out".to_string())
}

/// Runs a job to its end against a host that is reachable or not, holds the
/// files `files`, and fails the files whose path is in `failing`.
fn serve(job: &mut HostJob, reachable: bool, files: Vec<FileEntry>, failing: Vec<&str>) -> HostOutcome {
    let mut command = job.step(JobEvent::Start);
    loop {
        match command {
            JobCommand::Idle => panic!("a started job asks for nothing"),
            JobCommand::Connect(_) => {
                command = if reachable {
                    job.step(JobEvent::Connected)
                } else {
                    job.step(JobEvent::ConnectFailed(unreachable_host()))
                };
            }
            JobCommand::Transfer(TransferCommand::Enumerate { .. }) => {
                command = job.step(JobEvent::Transfer(TransferEvent::Listed(files.clone())));
            }
            JobCommand::Transfer(TransferCommand::Send(unit)) => {
                let result = if failing.contains(&unit.local.as_str()) {
                    Err(FileTransferError {
                        step: TransferStep::OpenRemote,
                        detail: "permission denied".to_string(),
                    })
                } else {
                    Ok(())
                };
                command = job.step(JobEvent::Transfer(TransferEvent::Sent(result)));
            }
            JobCommand::Transfer(TransferCommand::Finish) => panic!("a finished job reports"),
            JobCommand::Report(outcome) => return outcome,
        }
    }
}

#[test]
fn new_job_is_pending_and_asks_for_nothing() {
    let job = fresh_job("a");
    assert_eq!(job.state(), JobState::Pending);
    assert_eq!(job.command(), JobCommand::Idle);
    assert_eq!(job.outcome(), None);
    assert_eq!(job.ssh.host, "10.0.0.1:22");
    assert_eq!(job.ssh.username, "deploy");
    assert_eq!(job.ssh.password, "secret");
}

#[test]
fn job_goes_through_its_states_in_order() {
    let mut job = fresh_job("a");
    let mut seen: Vec<JobState> = vec![job.state()];
    job.step(JobEvent::Start);
    seen.push(job.state());
    job.step(JobEvent::Connected);
    seen.push(job.state());
    job.step(JobEvent::Transfer(TransferEvent::Listed(vec![entry("/in/a")])));
    seen.push(job.state());
    job.step(JobEvent::Transfer(TransferEvent::Sent(Ok(()))));
    seen.push(job.state());
    assert_eq!(
        seen,
        vec![
            JobState::Pending,
            JobState::Connecting,
            JobState::Connected,
            JobState::Transferring,
            JobState::Completed
        ]
    );
}

#[test]
fn started_job_asks_for_the_handshake_of_its_login() {
    let mut job = fresh_job("a");
    match job.step(JobEvent::Start) {
        JobCommand::Connect(handshake) => {
            assert_eq!(
                handshake.command(),
                ConnectCommand::Dial { host: "10.0.0.1".to_string(), port: 22 }
            );
        }
        other => panic!("unexpected command {:?}", other),
    }
}

#[test]
fn connected_job_asks_for_the_listing_of_the_input_root() {
    let mut job = fresh_job("a");
    job.step(JobEvent::Start);
    assert_eq!(
        job.step(JobEvent::Connected),
        JobCommand::Transfer(TransferCommand::Enumerate { root: "/in".to_string() })
    );
}

#[test]
fn failed_connect_reports_no_file_and_the_error() {
    let mut job = fresh_job("b");
    job.step(JobEvent::Start);
    let command = job.step(JobEvent::ConnectFailed(unreachable_host()));
    let want = HostOutcome {
        host: "b".to_string(),
        connected: false,
        attempted: 0,
        failed: 0,
        error: Some(unreachable_host()),
        no_files: false,
        failures: Vec::new(),
    };
    assert_eq!(job.state(), JobState::ConnectFailed);
    assert_eq!(command, JobCommand::Report(want.clone()));
    assert_eq!(job.outcome(), Some(want));
}

#[test]
fn failed_connect_is_not_retried() {
    let mut job = fresh_job("b");
    job.step(JobEvent::Start);
    job.step(JobEvent::ConnectFailed(unreachable_host()));
    let failed = job.clone();
    job.step(JobEvent::Start);
    job.step(JobEvent::Connected);
    job.step(JobEvent::Transfer(TransferEvent::Listed(vec![entry("/in/a")])));
    assert_eq!(job, failed);
    assert_eq!(job.phase, JobPhase::ConnectFailed);
}

#[test]
fn job_without_files_completes_and_says_so() {
    let mut job = fresh_job("a");
    let outcome = serve(&mut job, true, Vec::new(), Vec::new());
    assert_eq!(
        outcome,
        HostOutcome {
            host: "a".to_string(),
            connected: true,
            attempted: 0,
            failed: 0,
            error: None,
            no_files: true,
            failures: Vec::new(),
        }
    );
    assert_eq!(job.state(), JobState::Completed);
    assert!(outcome.clean());
}

#[test]
fn job_counts_every_file_as_attempted() {
    let mut job = fresh_job("a");
    let files = vec![entry("/in/a"), entry("/in/b"), entry("/in/c"), entry("/in/d")];
    let outcome = serve(&mut job, true, files, vec!["/in/b", "/in/d"]);
    assert!(outcome.connected);
    assert_eq!(outcome.attempted, 4);
    assert_eq!(outcome.failed, 2);
    assert_eq!(outcome.error, None);
    assert!(!outcome.no_files);
    assert!(!outcome.clean());
    let denied = FileTransferError {
        step: TransferStep::OpenRemote,
        detail: "permission denied".to_string(),
    };
    assert_eq!(
        outcome.failures,
        vec![
            FileFailure { path: "/in/b".to_string(), error: denied.clone() },
            FileFailure { path: "/in/d".to_string(), error: denied },
        ]
    );
}

#[test]
fn job_sends_to_its_own_output_directory() {
    let mut job = HostJob::new(
        &target("a", "h:22", Some("/srv/www")),
        &"/in".to_string(),
        &"/out".to_string(),
    );
    job.step(JobEvent::Start);
    job.step(JobEvent::Connected);
    assert_eq!(
        job.step(JobEvent::Transfer(TransferEvent::Listed(vec![entry("/in/a/b.txt")]))),
        JobCommand::Transfer(TransferCommand::Send(FileTransfer::new(
            "/in/a/b.txt".to_string(),
            "/srv/www/a/b.txt".to_string()
        )))
    );
}

#[test]
fn job_falls_back_to_the_default_output_directory() {
    let mut job = fresh_job("a");
    job.step(JobEvent::Start);
    job.step(JobEvent::Connected);
    assert_eq!(
        job.step(JobEvent::Transfer(TransferEvent::Listed(vec![entry("/in/a/b.txt")]))),
        JobCommand::Transfer(TransferCommand::Send(FileTransfer::new(
            "/in/a/b.txt".to_string(),
            "/out/a/b.txt".to_string()
        )))
    );
}

#[test]
fn events_out_of_turn_change_nothing() {
    let mut job = fresh_job("a");
    let pending = job.clone();
    job.step(JobEvent::Connected);
    job.step(JobEvent::ConnectFailed(unreachable_host()));
    job.step(JobEvent::Transfer(TransferEvent::Listed(Vec::new())));
    assert_eq!(job, pending);

    job.step(JobEvent::Start);
    let connecting = job.clone();
    job.step(JobEvent::Start);
    job.step(JobEvent::Transfer(TransferEvent::Sent(Ok(()))));
    assert_eq!(job, connecting);

    job.step(JobEvent::Connected);
    let connected = job.clone();
    job.step(JobEvent::Connected);
    job.step(JobEvent::ConnectFailed(unreachable_host()));
    job.step(JobEvent::Start);
    assert_eq!(job, connected);
}

#[test]
fn completed_job_stays_completed() {
    let mut job = fresh_job("a");
    let outcome = serve(&mut job, true, vec![entry("/in/a")], Vec::new());
    let done = job.clone();
    job.step(JobEvent::Transfer(TransferEvent::Sent(Ok(()))));
    job.step(JobEvent::ConnectFailed(unreachable_host()));
    job.step(JobEvent::Start);
    assert_eq!(job, done);
    assert_eq!(job.outcome(), Some(outcome));
}

#[test]
fn unfinished_job_has_no_outcome_but_a_summary() {
    let mut job = fresh_job("a");
    job.step(JobEvent::Start);
    job.step(JobEvent::Connected);
    job.step(JobEvent::Transfer(TransferEvent::Listed(vec![entry("/in/a"), entry("/in/b")])));
    job.step(JobEvent::Transfer(TransferEvent::Sent(Ok(()))));
    assert_eq!(job.outcome(), None);
    let summary = job.summary();
    assert!(summary.connected);
    assert_eq!(summary.attempted, 1);
    assert_eq!(summary.failed, 0);
}

#[test]
fn plan_makes_one_job_per_host_in_order() {
    let targets = vec![
        target("a", "sftp://10.0.0.1:22", None),
        target("b", " 10.0.0.2:2222 ", Some("/srv/b")),
        target("c", "10.0.0.3", None),
    ];
    let jobs = plan(&targets, &"/in".to_string(), &"/out".to_string());
    assert_eq!(jobs.len(), 3);
    let names: Vec<&str> = jobs.iter().map(|j: &HostJob| j.name.as_str()).collect();
    assert_eq!(names, vec!["a", "b", "c"]);
    let hosts: Vec<&str> = jobs.iter().map(|j: &HostJob| j.ssh.host.as_str()).collect();
    assert_eq!(hosts, vec!["10.0.0.1:22", "10.0.0.2:2222", "10.0.0.3"]);
    let outputs: Vec<&str> = jobs.iter().map(|j: &HostJob| j.transfer.output.as_str()).collect();
    assert_eq!(outputs, vec!["/out", "/srv/b", "/out"]);
    for job in &jobs {
        assert_eq!(job.state(), JobState::Pending);
        assert_eq!(job.transfer.input, "/in");
    }
}

#[test]
fn plan_for_no_host_makes_no_job() {
    let jobs = plan(&Vec::new(), &"/in".to_string(), &"/out".to_string());
    assert!(jobs.is_empty());
}

#[test]
fn one_host_down_leaves_the_other_served() {
    let targets = vec![target("a", "10.0.0.1:22", None), target("b", "10.0.0.2:22", None)];
    let mut jobs = plan(&targets, &"/in".to_string(), &"/out".to_string());
    let files = vec![entry("/in/x.txt"), entry("/in/sub/y.txt")];

    let mut joined: Vec<Joined> = Vec::new();
    let mut i: usize = 0;
    while i < jobs.len() {
        let outcome = serve(&mut jobs[i], i == 0, files.clone(), Vec::new());
        joined.push(Joined { host: targets[i].name.clone(), result: Ok(outcome) });
        i += 1;
    }
    let outcomes = collect(&joined);

    assert_eq!(outcomes.len(), 2);
    assert_eq!(
        outcomes[0],
        HostOutcome {
            host: "a".to_string(),
            connected: true,
            attempted: 2,
            failed: 0,
            error: None,
            no_files: false,
            failures: Vec::new(),
        }
    );
    assert_eq!(
        outcomes[1],
        HostOutcome {
            host: "b".to_string(),
            connected: false,
            attempted: 0,
            failed: 0,
            error: Some(unreachable_host()),
            no_files: false,
            failures: Vec::new(),
        }
    );
    assert!(!every_host_failed(&outcomes));
}

#[test]
fn order_of_service_does_not_change_the_outcomes() {
    let targets = vec![target("a", "10.0.0.1:22", None), target("b", "10.0.0.2:22", None)];
    let files = vec![entry("/in/x.txt"), entry("/in/sub/y.txt")];

    let mut forward = plan(&targets, &"/in".to_string(), &"/out".to_string());
    let a_first = serve(&mut forward[0], true, files.clone(), Vec::new());
    let b_second = serve(&mut forward[1], false, files.clone(), Vec::new());

    let mut backward = plan(&targets, &"/in".to_string(), &"/out".to_string());
    let b_first = serve(&mut backward[1], false, files.clone(), Vec::new());
    let a_second = serve(&mut backward[0], true, files, Vec::new());

    assert_eq!(a_first, a_second);
    assert_eq!(b_first, b_second);
}

#[test]
fn broken_task_is_reported_for_its_host_alone() {
    let served = HostOutcome {
        host: "a".to_string(),
        connected: true,
        attempted: 3,
        failed: 1,
        error: None,
        no_files: false,
        failures: vec![FileFailure {
            path: "/in/q".to_string(),
            error: FileTransferError { step: TransferStep::Flush, detail: "lost".to_string() },
        }],
    };
    let joined = vec![
        Joined { host: "a".to_string(), result: Ok(served.clone()) },
        Joined { host: "b".to_string(), result: Err("task panicked".to_string()) },
    ];
    let outcomes = collect(&joined);
    assert_eq!(outcomes[0], served);
    assert_eq!(
        outcomes[1],
        HostOutcome::task_failed("b".to_string(), "task panicked".to_string())
    );
    assert_eq!(
        outcomes[1],
        HostOutcome {
            host: "b".to_string(),
            connected: false,
            attempted: 0,
            failed: 0,
            error: Some(ConnectionError {
                kind: ConnectionErrorKind::TaskFailed,
                detail: "task panicked".to_string()
            }),
            no_files: false,
            failures: Vec::new(),
        }
    );
}

#[test]
fn collect_of_nothing_is_nothing() {
    assert!(collect(&Vec::new()).is_empty());
}

#[test]
fn every_host_failed_needs_hosts_and_errors() {
    let down = HostOutcome::task_failed("a".to_string(), "x".to_string());
    let mut up = fresh_job("b");
    let served = serve(&mut up, true, Vec::new(), Vec::new());
    assert!(!every_host_failed(&Vec::new()));
    assert!(every_host_failed(&vec![down.duplicate()]));
    assert!(every_host_failed(&vec![down.duplicate(), down.duplicate()]));
    assert!(!every_host_failed(&vec![down.duplicate(), served.duplicate()]));
    assert!(!every_host_failed(&vec![served]));
}

#[test]
fn run_fails_only_when_every_host_failed() {
    let down = HostOutcome::task_failed("a".to_string(), "x".to_string());
    let mut up = fresh_job("b");
    let served = serve(&mut up, true, vec![entry("/in/a")], vec!["/in/a"]);
    assert_eq!(exit_code(&Vec::new()), 0);
    assert_eq!(exit_code(&vec![down.duplicate()]), 1);
    assert_eq!(exit_code(&vec![down, served.duplicate()]), 0);
    assert_eq!(exit_code(&vec![served]), 0);
}

#[test]
fn duplicate_copies_an_outcome() {
    let mut job = fresh_job("a");
    let outcome = serve(&mut job, true, vec![entry("/in/a"), entry("/in/b")], vec!["/in/a"]);
    assert_eq!(outcome.duplicate(), outcome);
    assert_eq!(outcome.failures[0].duplicate(), outcome.failures[0]);
    assert_eq!(unreachable_host().duplicate(), unreachable_host());
}
