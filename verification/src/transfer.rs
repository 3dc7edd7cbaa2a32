//! Pushing one directory tree over one open session.
//!
//! The transfer first asks for the list of files below the input root, then
//! sends them one after another in the order of that list. A file that fails
//! is noted and the next one is sent: no failure ends the transfer early.

use crate::file_transfer::{
    FileTransfer, FileTransferError, FileTransferErrorView, FileTransferView,
};
use crate::remote_path::{remote_path, remote_path_of};
use crate::ssh::Ssh;
use crate::walk::{paths_of, FileEntry};
use vstd::prelude::*;

verus! {

/// A file that was not sent, and why.
#[derive(Debug, Clone, PartialEq, Eq)]
pub struct FileFailure {
    /// The local path of the file.
    pub path: String,
    pub error: FileTransferError,
}

/// What a `FileFailure` holds, as mathematical values.
pub struct FileFailureView {
    pub path: Seq<char>,
    pub error: FileTransferErrorView,
}

impl View for FileFailure {
    type V = FileFailureView;

    open spec fn view(&self) -> FileFailureView {
        FileFailureView { path: self.path@, error: self.error@ }
    }
}

/// The views of `failures`, in order.
pub open spec fn failures_of(failures: Seq<FileFailure>) -> Seq<FileFailureView> {
    Seq::new(failures.len(), |i: int| failures[i]@)
}

/// How far a transfer has come.
#[derive(Debug, Clone, Copy, PartialEq, Eq, Structural)]
pub enum TransferStage {
    /// The list of files has not come in yet.
    AwaitingListing,
    /// Files are being sent.
    Sending,
    /// Every listed file has been attempted.
    Finished,
}

/// What the caller is asked to do next for a transfer.
#[derive(Debug, Clone, PartialEq, Eq)]
pub enum TransferCommand {
    /// List the regular files below `root`.
    Enumerate { root: String },
    /// Send one file.
    Send(FileTransfer),
    /// Nothing is left to do.
    Finish,
}

/// What a `TransferCommand` holds, as mathematical values.
pub enum TransferCommandView {
    Enumerate { root: Seq<char> },
    Send(FileTransferView),
    Finish,
}

impl View for TransferCommand {
    type V = TransferCommandView;

    open spec fn view(&self) -> TransferCommandView {
        match self {
            TransferCommand::Enumerate { root } => TransferCommandView::Enumerate { root: root@ },
            TransferCommand::Send(t) => TransferCommandView::Send(t@),
            TransferCommand::Finish => TransferCommandView::Finish,
        }
    }
}

/// What the caller reports back to a transfer.
#[derive(Debug, PartialEq, Eq)]
pub enum TransferEvent {
    /// The files found below the input root.
    Listed(Vec<FileEntry>),
    /// How sending the pending file ended.
    Sent(Result<(), FileTransferError>),
}

/// What a `TransferEvent` holds: the paths of a listing, or the end of a file.
pub enum TransferEventView {
    Listed(Seq<Seq<char>>),
    /// `None` for a file that was sent, the error for one that was not.
    Sent(Option<FileTransferErrorView>),
}

impl View for TransferEvent {
    type V = TransferEventView;

    open spec fn view(&self) -> TransferEventView {
        match self {
            TransferEvent::Listed(files) => TransferEventView::Listed(paths_of(files@)),
            TransferEvent::Sent(Ok(_)) => TransferEventView::Sent(None),
            TransferEvent::Sent(Err(e)) => TransferEventView::Sent(Some(e@)),
        }
    }
}

/// The transfer of one tree over one session, between two of its steps.
#[derive(Debug, Clone, PartialEq, Eq)]
pub struct Transfer {
    pub input: String,
    pub output: String,
    /// Whether the list of files has come in.
    pub listed: bool,
    pub files: Vec<FileEntry>,
    /// How many of `files` have been attempted: the files before this
    /// position are done, the one at it is pending.
    pub attempted: usize,
    /// The attempted files that were not sent, in the order of the attempts.
    pub failures: Vec<FileFailure>,
}

/// What a `Transfer` holds, as mathematical values.
pub struct TransferView {
    pub input: Seq<char>,
    pub output: Seq<char>,
    pub listed: bool,
    pub files: Seq<Seq<char>>,
    pub attempted: nat,
    pub failures: Seq<FileFailureView>,
}

impl View for Transfer {
    type V = TransferView;

    open spec fn view(&self) -> TransferView {
        TransferView {
            input: self.input@,
            output: self.output@,
            listed: self.listed,
            files: paths_of(self.files@),
            attempted: self.attempted as nat,
            failures: failures_of(self.failures@),
        }
    }
}

impl TransferView {
    /// A transfer of the tree at `input` to `output` that has not listed its
    /// files yet.
    pub open spec fn start(input: Seq<char>, output: Seq<char>) -> TransferView {
        TransferView {
            input,
            output,
            listed: false,
            files: Seq::empty(),
            attempted: 0,
            failures: Seq::empty(),
        }
    }

    /// What holds of every transfer that began at `start`: no more files are
    /// attempted than were listed, and no more have failed than were
    /// attempted.
    pub open spec fn wf(self) -> bool {
        &&& self.attempted <= self.files.len()
        &&& self.failures.len() <= self.attempted
        &&& !self.listed ==> self.files.len() == 0
    }

    /// How far the transfer has come.
    pub open spec fn stage(self) -> TransferStage {
        if !self.listed {
            TransferStage::AwaitingListing
        } else if self.attempted < self.files.len() {
            TransferStage::Sending
        } else {
            TransferStage::Finished
        }
    }

    /// The listing came in and held no file at all.
    pub open spec fn no_files(self) -> bool {
        self.listed && self.files.len() == 0
    }

    /// What the caller is asked to do in this state.
    pub open spec fn command(self) -> TransferCommandView {
        match self.stage() {
            TransferStage::AwaitingListing => TransferCommandView::Enumerate { root: self.input },
            TransferStage::Sending => {
                let local = self.files[self.attempted as int];
                TransferCommandView::Send(
                    FileTransferView::start(local, remote_path_of(local, self.input, self.output)),
                )
            },
            TransferStage::Finished => TransferCommandView::Finish,
        }
    }

    /// The state after `event`. A listing is taken while none has come in; the
    /// end of a file is taken while one is pending, and counts that file as
    /// attempted whether it was sent or not. Any other event changes nothing.
    pub open spec fn step(self, event: TransferEventView) -> TransferView {
        match (self.stage(), event) {
            (TransferStage::AwaitingListing, TransferEventView::Listed(files)) => TransferView {
                listed: true,
                files,
                ..self
            },
            (TransferStage::Sending, TransferEventView::Sent(None)) => TransferView {
                attempted: self.attempted + 1,
                ..self
            },
            (TransferStage::Sending, TransferEventView::Sent(Some(error))) => TransferView {
                attempted: self.attempted + 1,
                failures: self.failures.push(
                    FileFailureView { path: self.files[self.attempted as int], error },
                ),
                ..self
            },
            _ => self,
        }
    }

    /// The state after the files from the pending one on have ended as
    /// `results` say, one entry per file.
    pub open spec fn send_all(self, results: Seq<Option<FileTransferErrorView>>) -> TransferView
        decreases results.len(),
    {
        if results.len() == 0 {
            self
        } else {
            self.step(TransferEventView::Sent(results[0])).send_all(results.drop_first())
        }
    }
}

/// How many of `results` report a failure.
pub open spec fn failure_count(results: Seq<Option<FileTransferErrorView>>) -> nat
    decreases results.len(),
{
    if results.len() == 0 {
        0
    } else {
        failure_count(results.drop_first()) + if results[0] is Some {
            1nat
        } else {
            0nat
        }
    }
}

impl Ssh {
    /// Begins the transfer of the tree at `input` to `output` on the remote
    /// side. Nothing is listed or sent yet.
    pub fn transfer(input: &String, output: &String) -> (t: Transfer)
        ensures
            t@ == TransferView::start(input@, output@),
    {
        let t = Transfer {
            input: input.clone(),
            output: output.clone(),
            listed: false,
            files: Vec::new(),
            attempted: 0,
            failures: Vec::new(),
        };
        assert(paths_of(t.files@) =~= Seq::empty());
        assert(failures_of(t.failures@) =~= Seq::empty());
        t
    }
}

impl Transfer {
    /// How far the transfer has come.
    pub fn stage(&self) -> (s: TransferStage)
        ensures
            s == self@.stage(),
    {
        if !self.listed {
            TransferStage::AwaitingListing
        } else if self.attempted < self.files.len() {
            TransferStage::Sending
        } else {
            TransferStage::Finished
        }
    }

    /// What to do next.
    pub fn command(&self) -> (c: TransferCommand)
        ensures
            c@ == self@.command(),
    {
        match self.stage() {
            TransferStage::AwaitingListing => TransferCommand::Enumerate {
                root: self.input.clone(),
            },
            TransferStage::Sending => {
                let local = &self.files[self.attempted].path;
                let remote = remote_path(local.as_str(), self.input.as_str(), self.output.as_str());
                TransferCommand::Send(FileTransfer::new(local.clone(), remote))
            },
            TransferStage::Finished => TransferCommand::Finish,
        }
    }

    /// Takes in `event` and says what to do next.
    pub fn step(&mut self, event: TransferEvent) -> (c: TransferCommand)
        ensures
            final(self)@ == old(self)@.step(event@),
            c@ == final(self)@.command(),
    {
        let stage = self.stage();
        match event {
            TransferEvent::Listed(files) => {
                if stage == TransferStage::AwaitingListing {
                    self.listed = true;
                    self.files = files;
                }
            },
            TransferEvent::Sent(result) => {
                if stage == TransferStage::Sending {
                    assert(self.attempted < self.files.len());
                    match result {
                        Ok(_) => {},
                        Err(error) => {
                            let path = self.files[self.attempted].path.clone();
                            let ghost before = self.failures@;
                            let failure = FileFailure { path, error };
                            self.failures.push(failure);
                            assert(failures_of(self.failures@) =~= failures_of(before).push(
                                failure@,
                            ));
                        },
                    }
                    self.attempted = self.attempted + 1;
                }
            },
        }
        self.command()
    }

    /// How many files have been attempted.
    pub fn attempted(&self) -> (n: usize)
        ensures
            n == self@.attempted,
    {
        self.attempted
    }

    /// How many of the attempted files were not sent.
    pub fn failed(&self) -> (n: usize)
        ensures
            n == self@.failures.len(),
    {
        self.failures.len()
    }

    /// Whether the listing came in and held no file at all.
    pub fn no_files(&self) -> (b: bool)
        ensures
            b == self@.no_files(),
    {
        self.listed && self.files.len() == 0
    }
}

/// Every step keeps a transfer well formed and leaves its roots alone.
pub proof fn lemma_step_keeps_wf(t: TransferView, event: TransferEventView)
    requires
        t.wf(),
    ensures
        t.step(event).wf(),
        t.step(event).input == t.input,
        t.step(event).output == t.output,
        t.step(event).attempted >= t.attempted,
        t.stage() != TransferStage::AwaitingListing ==> t.step(event).files == t.files,
{
}

/// One failing file stops nothing. Once the files are listed, whatever way
/// the single files end, each of them is attempted: when a result has come in
/// for every file that was still to send, the transfer is finished, the count
/// of attempts equals the count of listed files, and the count of failures
/// has grown by exactly the failures among those results.
pub proof fn lemma_every_file_is_attempted(
    t: TransferView,
    results: Seq<Option<FileTransferErrorView>>,
)
    requires
        t.wf(),
        t.listed,
        results.len() == t.files.len() - t.attempted,
    ensures
        t.send_all(results).stage() == TransferStage::Finished,
        t.send_all(results).attempted == t.files.len(),
        t.send_all(results).files == t.files,
        t.send_all(results).failures.len() == t.failures.len() + failure_count(results),
        t.send_all(results).wf(),
    decreases results.len(),
{
    if results.len() > 0 {
        let next = t.step(TransferEventView::Sent(results[0]));
        lemma_every_file_is_attempted(next, results.drop_first());
    }
}

/// Files go out in the order of the listing: once `k` more results have come
/// in and files are left, the file that is pending is the one `k` places
/// behind the one that was pending before, and it is sent to its own remote
/// path.
pub proof fn lemma_files_go_in_listing_order(
    t: TransferView,
    results: Seq<Option<FileTransferErrorView>>,
)
    requires
        t.wf(),
        t.listed,
        t.attempted + results.len() < t.files.len(),
    ensures
        t.send_all(results).stage() == TransferStage::Sending,
        t.send_all(results).attempted == t.attempted + results.len(),
        t.send_all(results).command() == TransferCommandView::Send(
            FileTransferView::start(
                t.files[(t.attempted + results.len()) as int],
                remote_path_of(
                    t.files[(t.attempted + results.len()) as int],
                    t.input,
                    t.output,
                ),
            ),
        ),
    decreases results.len(),
{
    if results.len() > 0 {
        let next = t.step(TransferEventView::Sent(results[0]));
        lemma_files_go_in_listing_order(next, results.drop_first());
    }
}

/// A failure is recorded with the path of the file that was pending and with
/// the error that was reported, behind the failures recorded before.
pub proof fn lemma_failure_is_recorded(t: TransferView, error: FileTransferErrorView)
    requires
        t.stage() == TransferStage::Sending,
    ensures
        t.step(TransferEventView::Sent(Some(error))).failures == t.failures.push(
            FileFailureView { path: t.files[t.attempted as int], error },
        ),
        t.step(TransferEventView::Sent(None)).failures == t.failures,
{
}

/// An input root without files is no failure: the transfer finishes at once
/// with nothing attempted and nothing failed, and says that it found no file.
pub proof fn lemma_empty_listing_finishes(input: Seq<char>, output: Seq<char>)
    ensures
        ({
            let end = TransferView::start(input, output).step(
                TransferEventView::Listed(Seq::empty()),
            );
            &&& end.stage() == TransferStage::Finished
            &&& end.command() == TransferCommandView::Finish
            &&& end.attempted == 0
            &&& end.failures.len() == 0
            &&& end.no_files()
        }),
{
}

} // verus!
