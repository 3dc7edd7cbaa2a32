//! Serving one host: connect, list the files, send them, report.
//!
//! A job is `Pending` until it is started, `Connecting` while the handshake
//! runs, `Connected` once the session stands and the files are being listed,
//! `Transferring` while files are sent, and `Completed` when the last file has
//! been attempted. A handshake that fails takes the job straight to
//! `ConnectFailed`. `Completed` and `ConnectFailed` are final.

use crate::handshake::{
    connection_error_view, ConnectionError, ConnectionErrorKind, ConnectionErrorView, Handshake,
    HandshakeView,
};
use crate::ssh::{normalize_host, Ssh, SshView};
use crate::transfer::{
    failures_of, FileFailure, FileFailureView, Transfer, TransferCommand, TransferCommandView,
    TransferEvent, TransferEventView, TransferStage, TransferView, failure_count,
    lemma_every_file_is_attempted,
};
use crate::file_transfer::{FileTransferError, FileTransferErrorView};
use vstd::prelude::*;

verus! {

/// One host to serve.
#[derive(Debug, Clone, PartialEq, Eq)]
pub struct HostTarget {
    /// The name by which the host is reported.
    pub name: String,
    /// `host:port`, with or without a leading `sftp://`.
    pub address: String,
    pub username: String,
    pub credential: String,
    /// Where the tree goes on this host; `None` for the default place.
    pub output_dir: Option<String>,
}

/// What a `HostTarget` holds, as character sequences.
pub struct HostTargetView {
    pub name: Seq<char>,
    pub address: Seq<char>,
    pub username: Seq<char>,
    pub credential: Seq<char>,
    pub output_dir: Option<Seq<char>>,
}

impl View for HostTarget {
    type V = HostTargetView;

    open spec fn view(&self) -> HostTargetView {
        HostTargetView {
            name: self.name@,
            address: self.address@,
            username: self.username@,
            credential: self.credential@,
            output_dir: match self.output_dir {
                Some(dir) => Some(dir@),
                None => None,
            },
        }
    }
}

impl HostTargetView {
    /// Where the tree goes on this host: its own output directory if it has
    /// one, else `default_output`.
    pub open spec fn output_root(self, default_output: Seq<char>) -> Seq<char> {
        match self.output_dir {
            Some(dir) => dir,
            None => default_output,
        }
    }
}

/// The state of a job.
#[derive(Debug, Clone, Copy, PartialEq, Eq, Structural)]
pub enum JobState {
    Pending,
    Connecting,
    Connected,
    Transferring,
    Completed,
    ConnectFailed,
}

/// How far a job has come, the transfer set aside.
#[derive(Debug, Clone, Copy, PartialEq, Eq, Structural)]
pub enum JobPhase {
    Pending,
    Connecting,
    /// The session stands; the transfer says how far it has come.
    Active,
    ConnectFailed,
}

/// What became of one host.
#[derive(Debug, Clone, PartialEq, Eq)]
pub struct HostOutcome {
    pub host: String,
    /// Whether a session was set up.
    pub connected: bool,
    /// How many files were attempted.
    pub attempted: usize,
    /// How many of the attempted files were not sent.
    pub failed: usize,
    /// Why the host was not served, if it was not.
    pub error: Option<ConnectionError>,
    /// Whether the input root held no file at all.
    pub no_files: bool,
    /// The files that were not sent, and why.
    pub failures: Vec<FileFailure>,
}

/// What a `HostOutcome` holds, as mathematical values.
pub struct HostOutcomeView {
    pub host: Seq<char>,
    pub connected: bool,
    pub attempted: nat,
    pub failed: nat,
    pub error: Option<ConnectionErrorView>,
    pub no_files: bool,
    pub failures: Seq<FileFailureView>,
}

impl View for HostOutcome {
    type V = HostOutcomeView;

    open spec fn view(&self) -> HostOutcomeView {
        HostOutcomeView {
            host: self.host@,
            connected: self.connected,
            attempted: self.attempted as nat,
            failed: self.failed as nat,
            error: connection_error_view(self.error),
            no_files: self.no_files,
            failures: failures_of(self.failures@),
        }
    }
}

impl HostOutcomeView {
    /// The outcome for a host whose task ended abnormally: nothing is known
    /// to have been done for it.
    pub open spec fn task_failed(host: Seq<char>, detail: Seq<char>) -> HostOutcomeView {
        HostOutcomeView {
            host,
            connected: false,
            attempted: 0,
            failed: 0,
            error: Some(ConnectionErrorView { kind: ConnectionErrorKind::TaskFailed, detail }),
            no_files: false,
            failures: Seq::empty(),
        }
    }

    /// Whether the host was served without any failure.
    pub open spec fn clean(self) -> bool {
        self.connected && self.error is None && self.failed == 0
    }
}

/// What the caller reports back to a job.
#[derive(Debug, PartialEq, Eq)]
pub enum JobEvent {
    /// The job is to begin.
    Start,
    /// The handshake has set the session up.
    Connected,
    /// The handshake has failed.
    ConnectFailed(ConnectionError),
    /// Something the transfer waits for has happened.
    Transfer(TransferEvent),
}

/// What a `JobEvent` holds, as mathematical values.
pub enum JobEventView {
    Start,
    Connected,
    ConnectFailed(ConnectionErrorView),
    Transfer(TransferEventView),
}

impl View for JobEvent {
    type V = JobEventView;

    open spec fn view(&self) -> JobEventView {
        match self {
            JobEvent::Start => JobEventView::Start,
            JobEvent::Connected => JobEventView::Connected,
            JobEvent::ConnectFailed(e) => JobEventView::ConnectFailed(e@),
            JobEvent::Transfer(e) => JobEventView::Transfer(e@),
        }
    }
}

/// What the caller is asked to do next for a job.
#[derive(Debug, Clone, PartialEq, Eq)]
pub enum JobCommand {
    /// Nothing, until the job is started.
    Idle,
    /// Run this handshake to its end.
    Connect(Handshake),
    /// List the files, or send one.
    Transfer(TransferCommand),
    /// The job is over; this is what became of the host.
    Report(HostOutcome),
}

/// What a `JobCommand` holds, as mathematical values.
pub enum JobCommandView {
    Idle,
    Connect(HandshakeView),
    Transfer(TransferCommandView),
    Report(HostOutcomeView),
}

impl View for JobCommand {
    type V = JobCommandView;

    open spec fn view(&self) -> JobCommandView {
        match self {
            JobCommand::Idle => JobCommandView::Idle,
            JobCommand::Connect(h) => JobCommandView::Connect(h@),
            JobCommand::Transfer(c) => JobCommandView::Transfer(c@),
            JobCommand::Report(o) => JobCommandView::Report(o@),
        }
    }
}

/// The job for one host, between two of its steps.
#[derive(Debug, Clone, PartialEq, Eq)]
pub struct HostJob {
    pub name: String,
    pub ssh: Ssh,
    pub phase: JobPhase,
    pub transfer: Transfer,
    pub error: Option<ConnectionError>,
}

/// What a `HostJob` holds, as mathematical values.
pub struct JobView {
    pub name: Seq<char>,
    pub ssh: SshView,
    pub phase: JobPhase,
    pub transfer: TransferView,
    pub error: Option<ConnectionErrorView>,
}

impl View for HostJob {
    type V = JobView;

    open spec fn view(&self) -> JobView {
        JobView {
            name: self.name@,
            ssh: self.ssh@,
            phase: self.phase,
            transfer: self.transfer@,
            error: connection_error_view(self.error),
        }
    }
}

impl JobView {
    /// The job that pushes the tree at `input_root` to `target`, not yet
    /// started.
    pub open spec fn new(
        target: HostTargetView,
        input_root: Seq<char>,
        default_output: Seq<char>,
    ) -> JobView {
        JobView {
            name: target.name,
            ssh: SshView {
                host: normalize_host(target.address),
                username: target.username,
                password: target.credential,
            },
            phase: JobPhase::Pending,
            transfer: TransferView::start(input_root, target.output_root(default_output)),
            error: None,
        }
    }

    /// What holds of every job that began at `new`: the transfer is well
    /// formed and untouched until the session stands, and an error is set
    /// exactly when the handshake has failed.
    pub open spec fn wf(self) -> bool {
        &&& self.transfer.wf()
        &&& self.phase != JobPhase::Active ==> self.transfer == TransferView::start(
            self.transfer.input,
            self.transfer.output,
        )
        &&& self.error is Some <==> self.phase == JobPhase::ConnectFailed
    }

    /// The state of the job.
    pub open spec fn state(self) -> JobState {
        match self.phase {
            JobPhase::Pending => JobState::Pending,
            JobPhase::Connecting => JobState::Connecting,
            JobPhase::ConnectFailed => JobState::ConnectFailed,
            JobPhase::Active => match self.transfer.stage() {
                TransferStage::AwaitingListing => JobState::Connected,
                TransferStage::Sending => JobState::Transferring,
                TransferStage::Finished => JobState::Completed,
            },
        }
    }

    /// Whether the job is over.
    pub open spec fn terminal(self) -> bool {
        self.state() == JobState::Completed || self.state() == JobState::ConnectFailed
    }

    /// What is known of the host so far; once the job is over, what became
    /// of it.
    pub open spec fn summary(self) -> HostOutcomeView {
        HostOutcomeView {
            host: self.name,
            connected: self.phase == JobPhase::Active,
            attempted: self.transfer.attempted,
            failed: self.transfer.failures.len(),
            error: self.error,
            no_files: self.transfer.no_files(),
            failures: self.transfer.failures,
        }
    }

    /// What became of the host, once the job is over.
    pub open spec fn outcome(self) -> Option<HostOutcomeView> {
        if self.terminal() {
            Some(self.summary())
        } else {
            None
        }
    }

    /// What the caller is asked to do in this state.
    pub open spec fn command(self) -> JobCommandView {
        match self.state() {
            JobState::Pending => JobCommandView::Idle,
            JobState::Connecting => JobCommandView::Connect(HandshakeView::start(self.ssh)),
            JobState::Connected | JobState::Transferring => JobCommandView::Transfer(
                self.transfer.command(),
            ),
            JobState::Completed | JobState::ConnectFailed => JobCommandView::Report(
                self.summary(),
            ),
        }
    }

    /// The state after `event`. Each state takes the events it waits for:
    /// `Pending` the start, `Connecting` the end of the handshake, `Connected`
    /// and `Transferring` what the transfer waits for. Any other event, and
    /// any event after the job is over, changes nothing.
    pub open spec fn step(self, event: JobEventView) -> JobView {
        match (self.phase, event) {
            (JobPhase::Pending, JobEventView::Start) => JobView {
                phase: JobPhase::Connecting,
                ..self
            },
            (JobPhase::Connecting, JobEventView::Connected) => JobView {
                phase: JobPhase::Active,
                ..self
            },
            (JobPhase::Connecting, JobEventView::ConnectFailed(error)) => JobView {
                phase: JobPhase::ConnectFailed,
                error: Some(error),
                ..self
            },
            (JobPhase::Active, JobEventView::Transfer(e)) => JobView {
                transfer: self.transfer.step(e),
                ..self
            },
            _ => self,
        }
    }

    /// The state after the events `events`, in order.
    pub open spec fn run(self, events: Seq<JobEventView>) -> JobView
        decreases events.len(),
    {
        if events.len() == 0 {
            self
        } else {
            self.step(events[0]).run(events.drop_first())
        }
    }
}

/// The events that report the end of one file each, as `results` say.
pub open spec fn sent_events(results: Seq<Option<FileTransferErrorView>>) -> Seq<JobEventView> {
    Seq::new(
        results.len(),
        |i: int| JobEventView::Transfer(TransferEventView::Sent(results[i])),
    )
}

impl ConnectionError {
    /// A copy of this error.
    pub fn duplicate(&self) -> (e: ConnectionError)
        ensures
            e@ == self@,
    {
        ConnectionError { kind: self.kind, detail: self.detail.clone() }
    }
}

impl FileFailure {
    /// A copy of this failure.
    pub fn duplicate(&self) -> (f: FileFailure)
        ensures
            f@ == self@,
    {
        FileFailure {
            path: self.path.clone(),
            error: FileTransferError { step: self.error.step, detail: self.error.detail.clone() },
        }
    }
}

/// A copy of `failures`.
pub fn duplicate_failures(failures: &Vec<FileFailure>) -> (copy: Vec<FileFailure>)
    ensures
        failures_of(copy@) == failures_of(failures@),
{
    let mut copy: Vec<FileFailure> = Vec::new();
    let mut i: usize = 0;
    while i < failures.len()
        invariant
            i <= failures.len(),
            copy.len() == i,
            forall|k: int| 0 <= k < i ==> copy[k]@ == failures[k]@,
        decreases failures.len() - i,
    {
        copy.push(failures[i].duplicate());
        i += 1;
    }
    assert(failures_of(copy@) =~= failures_of(failures@));
    copy
}

impl HostOutcome {
    /// The outcome for a host whose task ended abnormally.
    pub fn task_failed(host: String, detail: String) -> (o: HostOutcome)
        ensures
            o@ == HostOutcomeView::task_failed(host@, detail@),
    {
        let o = HostOutcome {
            host,
            connected: false,
            attempted: 0,
            failed: 0,
            error: Some(ConnectionError { kind: ConnectionErrorKind::TaskFailed, detail }),
            no_files: false,
            failures: Vec::new(),
        };
        assert(failures_of(o.failures@) =~= Seq::empty());
        o
    }

    /// A copy of this outcome.
    pub fn duplicate(&self) -> (o: HostOutcome)
        ensures
            o@ == self@,
    {
        HostOutcome {
            host: self.host.clone(),
            connected: self.connected,
            attempted: self.attempted,
            failed: self.failed,
            error: match &self.error {
                Some(e) => Some(e.duplicate()),
                None => None,
            },
            no_files: self.no_files,
            failures: duplicate_failures(&self.failures),
        }
    }

    /// Whether the host was served without any failure.
    pub fn clean(&self) -> (b: bool)
        ensures
            b == self@.clean(),
    {
        self.connected && self.error.is_none() && self.failed == 0
    }
}

impl HostJob {
    /// The job that pushes the tree at `input_root` to `target`, not yet
    /// started. The tree goes to the target's own output directory if it
    /// names one, else to `default_output`.
    pub fn new(target: &HostTarget, input_root: &String, default_output: &String) -> (job: HostJob)
        ensures
            job@ == JobView::new(target@, input_root@, default_output@),
            job@.wf(),
    {
        let ssh = Ssh::new(
            target.address.clone(),
            target.username.clone(),
            target.credential.clone(),
        );
        let transfer = match &target.output_dir {
            Some(dir) => Ssh::transfer(input_root, dir),
            None => Ssh::transfer(input_root, default_output),
        };
        HostJob { name: target.name.clone(), ssh, phase: JobPhase::Pending, transfer, error: None }
    }

    /// The state of the job.
    pub fn state(&self) -> (s: JobState)
        ensures
            s == self@.state(),
    {
        match self.phase {
            JobPhase::Pending => JobState::Pending,
            JobPhase::Connecting => JobState::Connecting,
            JobPhase::ConnectFailed => JobState::ConnectFailed,
            JobPhase::Active => match self.transfer.stage() {
                TransferStage::AwaitingListing => JobState::Connected,
                TransferStage::Sending => JobState::Transferring,
                TransferStage::Finished => JobState::Completed,
            },
        }
    }

    /// What is known of the host so far.
    pub fn summary(&self) -> (o: HostOutcome)
        ensures
            o@ == self@.summary(),
    {
        HostOutcome {
            host: self.name.clone(),
            connected: self.phase == JobPhase::Active,
            attempted: self.transfer.attempted(),
            failed: self.transfer.failed(),
            error: match &self.error {
                Some(e) => Some(e.duplicate()),
                None => None,
            },
            no_files: self.transfer.no_files(),
            failures: duplicate_failures(&self.transfer.failures),
        }
    }

    /// What became of the host: `Some` exactly when the job is over.
    pub fn outcome(&self) -> (o: Option<HostOutcome>)
        ensures
            match o {
                Some(outcome) => self@.outcome() == Some(outcome@),
                None => self@.outcome() is None,
            },
    {
        match self.state() {
            JobState::Completed | JobState::ConnectFailed => Some(self.summary()),
            _ => None,
        }
    }

    /// What to do next.
    pub fn command(&self) -> (c: JobCommand)
        ensures
            c@ == self@.command(),
    {
        match self.state() {
            JobState::Pending => JobCommand::Idle,
            JobState::Connecting => JobCommand::Connect(self.ssh.connect()),
            JobState::Connected | JobState::Transferring => JobCommand::Transfer(
                self.transfer.command(),
            ),
            JobState::Completed | JobState::ConnectFailed => JobCommand::Report(self.summary()),
        }
    }

    /// Takes in `event` and says what to do next.
    pub fn step(&mut self, event: JobEvent) -> (c: JobCommand)
        ensures
            final(self)@ == old(self)@.step(event@),
            c@ == final(self)@.command(),
    {
        let phase = self.phase;
        match event {
            JobEvent::Start => {
                if phase == JobPhase::Pending {
                    self.phase = JobPhase::Connecting;
                }
            },
            JobEvent::Connected => {
                if phase == JobPhase::Connecting {
                    self.phase = JobPhase::Active;
                }
            },
            JobEvent::ConnectFailed(error) => {
                if phase == JobPhase::Connecting {
                    self.phase = JobPhase::ConnectFailed;
                    self.error = Some(error);
                }
            },
            JobEvent::Transfer(e) => {
                if phase == JobPhase::Active {
                    return match self.transfer.step(e) {
                        TransferCommand::Finish => JobCommand::Report(self.summary()),
                        command => JobCommand::Transfer(command),
                    };
                }
            },
        }
        self.command()
    }
}

/// Every step keeps a job well formed, and leaves its name, its login and
/// its roots alone.
pub proof fn lemma_step_keeps_wf(job: JobView, event: JobEventView)
    requires
        job.wf(),
    ensures
        job.step(event).wf(),
        job.step(event).name == job.name,
        job.step(event).ssh == job.ssh,
        job.step(event).transfer.input == job.transfer.input,
        job.step(event).transfer.output == job.transfer.output,
{
}

/// A job that is over stays as it is, whatever is reported to it.
pub proof fn lemma_terminal_is_final(job: JobView, event: JobEventView)
    requires
        job.wf(),
        job.terminal(),
    ensures
        job.step(event) == job,
{
    match (job.phase, event) {
        (JobPhase::Active, JobEventView::Transfer(e)) => {
            assert(job.transfer.stage() == TransferStage::Finished);
            assert(job.transfer.step(e) == job.transfer);
        },
        _ => {},
    }
}

/// A job whose handshake fails ends at once in `ConnectFailed`: no session,
/// no file attempted, none failed, and the error that the handshake reported
/// as the reason. Nothing was retried.
pub proof fn lemma_connect_failure_outcome(job: JobView, error: ConnectionErrorView)
    requires
        job.wf(),
        job.state() == JobState::Connecting,
    ensures
        ({
            let end = job.step(JobEventView::ConnectFailed(error));
            &&& end.state() == JobState::ConnectFailed
            &&& end.wf()
            &&& end.outcome() == Some(
                HostOutcomeView {
                    host: job.name,
                    connected: false,
                    attempted: 0,
                    failed: 0,
                    error: Some(error),
                    no_files: false,
                    failures: Seq::empty(),
                },
            )
            &&& end.command() == JobCommandView::Report(end.summary())
        }),
{
    let end = job.step(JobEventView::ConnectFailed(error));
    assert(end.summary().failures =~= Seq::empty());
}

/// A job is over exactly in the states `Completed` and `ConnectFailed`, and
/// reports an error exactly in the second.
pub proof fn lemma_outcome_tells_the_end(job: JobView)
    requires
        job.wf(),
    ensures
        job.outcome() is Some <==> job.terminal(),
        job.state() == JobState::Completed ==> job.summary().connected && job.summary().error
            is None && job.summary().attempted == job.transfer.files.len(),
        job.state() == JobState::ConnectFailed ==> !job.summary().connected
            && job.summary().error is Some && job.summary().attempted == 0,
{
}

/// Reporting the end of one file after another to a job is sending them all
/// on its transfer.
pub proof fn lemma_job_sends_all(job: JobView, results: Seq<Option<FileTransferErrorView>>)
    requires
        job.phase == JobPhase::Active,
    ensures
        job.run(sent_events(results)) == (JobView {
            transfer: job.transfer.send_all(results),
            ..job
        }),
    decreases results.len(),
{
    let events = sent_events(results);
    if results.len() > 0 {
        let next = job.step(events[0]);
        assert(events.drop_first() =~= sent_events(results.drop_first()));
        lemma_job_sends_all(next, results.drop_first());
    }
}

/// A job whose session stands attempts every file that the listing holds,
/// whichever of them fail: after the listing and one result per file the job
/// is `Completed`, and its outcome counts as many attempts as files were
/// listed and as many failures as results were failures.
pub proof fn lemma_completed_job_outcome(
    job: JobView,
    files: Seq<Seq<char>>,
    results: Seq<Option<FileTransferErrorView>>,
)
    requires
        job.wf(),
        job.state() == JobState::Connected,
        results.len() == files.len(),
    ensures
        ({
            let listed = job.step(JobEventView::Transfer(TransferEventView::Listed(files)));
            let end = listed.run(sent_events(results));
            &&& end.state() == JobState::Completed
            &&& end.outcome() is Some
            &&& end.summary().host == job.name
            &&& end.summary().connected
            &&& end.summary().error is None
            &&& end.summary().attempted == files.len()
            &&& end.summary().failed == failure_count(results)
            &&& end.summary().no_files == (files.len() == 0)
        }),
{
    let listed = job.step(JobEventView::Transfer(TransferEventView::Listed(files)));
    lemma_job_sends_all(listed, results);
    lemma_every_file_is_attempted(listed.transfer, results);
}

} // verus!
