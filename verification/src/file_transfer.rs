//! Sending one file: open the remote file, read the local one, write, flush.
//!
//! The four steps run in that order. The first one that fails ends the
//! transfer of this file with an error that names the step; none of the later
//! steps is asked for.

use russh_sftp::protocol::OpenFlags;
use vstd::prelude::*;

verus! {

/// How a remote file is opened.
#[derive(Debug, Clone, Copy, PartialEq, Eq, Structural)]
pub struct OpenMode {
    pub read: bool,
    pub write: bool,
    /// Write behind what the file holds.
    pub append: bool,
    /// Create the file if it is absent.
    pub create: bool,
    /// Empty the file if it is present.
    pub truncate: bool,
    /// With `create`: fail if the file is present.
    pub exclusive: bool,
}

impl OpenMode {
    /// The mode every upload uses: create or truncate, for writing and
    /// reading.
    pub open spec fn upload_mode() -> OpenMode {
        OpenMode {
            read: true,
            write: true,
            append: false,
            create: true,
            truncate: true,
            exclusive: false,
        }
    }

    /// The mode every upload uses.
    pub fn upload() -> (mode: OpenMode)
        ensures
            mode == Self::upload_mode(),
    {
        OpenMode {
            read: true,
            write: true,
            append: false,
            create: true,
            truncate: true,
            exclusive: false,
        }
    }

    /// The mode as the flag word of the file protocol: one bit per flag,
    /// from the lowest for `read` through `write`, `append`, `create` and
    /// `truncate` to the sixth for `exclusive`.
    pub open spec fn flag_word(self) -> u32 {
        ((if self.read {
            0x01int
        } else {
            0
        }) + (if self.write {
            0x02int
        } else {
            0
        }) + (if self.append {
            0x04int
        } else {
            0
        }) + (if self.create {
            0x08int
        } else {
            0
        }) + (if self.truncate {
            0x10int
        } else {
            0
        }) + (if self.exclusive {
            0x20int
        } else {
            0
        })) as u32
    }

    /// The mode as the flag word that the file protocol sends when it opens
    /// a file.
    pub fn flags(&self) -> (word: u32)
        ensures
            word == self.flag_word(),
    {
        protocol_flags(*self)
    }
}

/// The flag word of `mode`, as `russh_sftp` builds it: `OpenFlags::empty`,
/// then `OpenFlags::set` once per flag with the flag's constant (`READ`,
/// `WRITE`, `APPEND`, `CREATE`, `TRUNCATE`, `EXCLUDE`), then
/// `OpenFlags::bits`. Believed, not proved: the constants are the bits 0x01,
/// 0x02, 0x04, 0x08, 0x10 and 0x20, `set` puts a flag in or takes it out as
/// its second argument says, and `bits` gives the bits of the flags that are
/// in.
#[verifier::external_body]
fn protocol_flags(mode: OpenMode) -> (word: u32)
    ensures
        word == mode.flag_word(),
{
    let mut flags = OpenFlags::empty();
    flags.set(OpenFlags::READ, mode.read);
    flags.set(OpenFlags::WRITE, mode.write);
    flags.set(OpenFlags::APPEND, mode.append);
    flags.set(OpenFlags::CREATE, mode.create);
    flags.set(OpenFlags::TRUNCATE, mode.truncate);
    flags.set(OpenFlags::EXCLUDE, mode.exclusive);
    flags.bits()
}

/// Two modes with the same flag word are the same mode.
pub proof fn lemma_flag_word_tells_the_mode(a: OpenMode, b: OpenMode)
    requires
        a.flag_word() == b.flag_word(),
    ensures
        a == b,
{
}

/// The flag word of an upload: read, write, create and truncate.
pub proof fn lemma_upload_flag_word()
    ensures
        OpenMode::upload_mode().flag_word() == 0x1b,
{
}

/// One step of sending a file.
#[derive(Debug, Clone, Copy, PartialEq, Eq, Structural)]
pub enum TransferStep {
    OpenRemote,
    ReadLocal,
    WriteRemote,
    Flush,
}

impl TransferStep {
    /// The step that follows this one, if any.
    pub open spec fn successor(self) -> Option<TransferStep> {
        match self {
            TransferStep::OpenRemote => Some(TransferStep::ReadLocal),
            TransferStep::ReadLocal => Some(TransferStep::WriteRemote),
            TransferStep::WriteRemote => Some(TransferStep::Flush),
            TransferStep::Flush => None,
        }
    }

    /// The place of this step in the order of steps, from 0.
    pub open spec fn ordinal(self) -> int {
        match self {
            TransferStep::OpenRemote => 0,
            TransferStep::ReadLocal => 1,
            TransferStep::WriteRemote => 2,
            TransferStep::Flush => 3,
        }
    }

    /// The step that follows this one, if any.
    pub fn next(self) -> (r: Option<TransferStep>)
        ensures
            r == self.successor(),
    {
        match self {
            TransferStep::OpenRemote => Some(TransferStep::ReadLocal),
            TransferStep::ReadLocal => Some(TransferStep::WriteRemote),
            TransferStep::WriteRemote => Some(TransferStep::Flush),
            TransferStep::Flush => None,
        }
    }
}

/// Why a file was not sent: the step that failed, and what the failing
/// operation reported.
#[derive(Debug, Clone, PartialEq, Eq)]
pub struct FileTransferError {
    pub step: TransferStep,
    pub detail: String,
}

/// What a `FileTransferError` holds, the report as a character sequence.
pub struct FileTransferErrorView {
    pub step: TransferStep,
    pub detail: Seq<char>,
}

impl View for FileTransferError {
    type V = FileTransferErrorView;

    open spec fn view(&self) -> FileTransferErrorView {
        FileTransferErrorView { step: self.step, detail: self.detail@ }
    }
}

/// The view of an optional error.
pub open spec fn error_view(e: Option<FileTransferError>) -> Option<FileTransferErrorView> {
    match e {
        Some(e) => Some(e@),
        None => None,
    }
}

/// What the caller is asked to do next for one file.
#[derive(Debug, Clone, PartialEq, Eq)]
pub enum FileCommand {
    /// Open the remote file at `path` in `mode`.
    OpenRemote { path: String, mode: OpenMode },
    /// Read the whole local file at `path` into memory.
    ReadLocal { path: String },
    /// Write everything that was read to the remote file.
    WriteRemote,
    /// Flush the remote file.
    Flush,
    /// Nothing is left to do.
    Finished,
}

/// What a `FileCommand` holds, paths as character sequences.
pub enum FileCommandView {
    OpenRemote { path: Seq<char>, mode: OpenMode },
    ReadLocal { path: Seq<char> },
    WriteRemote,
    Flush,
    Finished,
}

impl View for FileCommand {
    type V = FileCommandView;

    open spec fn view(&self) -> FileCommandView {
        match self {
            FileCommand::OpenRemote { path, mode } => FileCommandView::OpenRemote {
                path: path@,
                mode: *mode,
            },
            FileCommand::ReadLocal { path } => FileCommandView::ReadLocal { path: path@ },
            FileCommand::WriteRemote => FileCommandView::WriteRemote,
            FileCommand::Flush => FileCommandView::Flush,
            FileCommand::Finished => FileCommandView::Finished,
        }
    }
}

/// The transfer of one file, between two of its steps.
#[derive(Debug, Clone, PartialEq, Eq)]
pub struct FileTransfer {
    pub local: String,
    pub remote: String,
    /// The step to take next; `None` once the transfer is over.
    pub next: Option<TransferStep>,
    /// Set once a step has failed.
    pub error: Option<FileTransferError>,
}

/// What a `FileTransfer` holds, as mathematical values.
pub struct FileTransferView {
    pub local: Seq<char>,
    pub remote: Seq<char>,
    pub next: Option<TransferStep>,
    pub error: Option<FileTransferErrorView>,
}

impl View for FileTransfer {
    type V = FileTransferView;

    open spec fn view(&self) -> FileTransferView {
        FileTransferView {
            local: self.local@,
            remote: self.remote@,
            next: self.next,
            error: error_view(self.error),
        }
    }
}

impl FileTransferView {
    /// A transfer of `local` to `remote` with every step still to take.
    pub open spec fn start(local: Seq<char>, remote: Seq<char>) -> FileTransferView {
        FileTransferView { local, remote, next: Some(TransferStep::OpenRemote), error: None }
    }

    /// What the caller is asked to do in this state.
    pub open spec fn command(self) -> FileCommandView {
        match self.next {
            Some(TransferStep::OpenRemote) => FileCommandView::OpenRemote {
                path: self.remote,
                mode: OpenMode::upload_mode(),
            },
            Some(TransferStep::ReadLocal) => FileCommandView::ReadLocal { path: self.local },
            Some(TransferStep::WriteRemote) => FileCommandView::WriteRemote,
            Some(TransferStep::Flush) => FileCommandView::Flush,
            None => FileCommandView::Finished,
        }
    }

    /// The state after the pending step has ended as `reply` says: `None` for
    /// success, or what the failing operation reported. A transfer that is
    /// over stays as it is.
    pub open spec fn advance(self, reply: Option<Seq<char>>) -> FileTransferView {
        match self.next {
            None => self,
            Some(step) => match reply {
                None => FileTransferView { next: step.successor(), ..self },
                Some(detail) => FileTransferView {
                    next: None,
                    error: Some(FileTransferErrorView { step, detail }),
                    ..self
                },
            },
        }
    }

    /// The state after the replies `replies` have come in, one per step.
    pub open spec fn run(self, replies: Seq<Option<Seq<char>>>) -> FileTransferView
        decreases replies.len(),
    {
        if replies.len() == 0 {
            self
        } else {
            self.advance(replies[0]).run(replies.drop_first())
        }
    }

    /// Whether every step was taken or one has failed.
    pub open spec fn finished(self) -> bool {
        self.next is None
    }
}

/// The view of a reply: `None` for success, the report of a failure else.
pub open spec fn reply_view(reply: Result<(), String>) -> Option<Seq<char>> {
    match reply {
        Ok(_) => None,
        Err(detail) => Some(detail@),
    }
}

impl FileTransfer {
    /// A transfer of `local` to `remote` with every step still to take.
    pub fn new(local: String, remote: String) -> (t: FileTransfer)
        ensures
            t@ == FileTransferView::start(local@, remote@),
    {
        FileTransfer { local, remote, next: Some(TransferStep::OpenRemote), error: None }
    }

    /// What to do next.
    pub fn command(&self) -> (c: FileCommand)
        ensures
            c@ == self@.command(),
    {
        match self.next {
            Some(TransferStep::OpenRemote) => FileCommand::OpenRemote {
                path: self.remote.clone(),
                mode: OpenMode::upload(),
            },
            Some(TransferStep::ReadLocal) => FileCommand::ReadLocal { path: self.local.clone() },
            Some(TransferStep::WriteRemote) => FileCommand::WriteRemote,
            Some(TransferStep::Flush) => FileCommand::Flush,
            None => FileCommand::Finished,
        }
    }

    /// Records how the pending step ended and moves on: to the next step
    /// after a success, to the end after a failure.
    pub fn advance(&mut self, reply: Result<(), String>)
        ensures
            final(self)@ == old(self)@.advance(reply_view(reply)),
    {
        match self.next {
            None => {},
            Some(step) => match reply {
                Ok(_) => {
                    self.next = step.next();
                },
                Err(detail) => {
                    self.next = None;
                    self.error = Some(FileTransferError { step, detail });
                },
            },
        }
    }

    /// Whether every step was taken or one has failed.
    pub fn finished(&self) -> (b: bool)
        ensures
            b == self@.finished(),
    {
        self.next.is_none()
    }

    /// How the transfer ended, once it is over.
    pub fn into_result(self) -> (r: Option<Result<(), FileTransferError>>)
        ensures
            r is Some == self@.finished(),
            r matches Some(Ok(_)) ==> self@.error is None,
            r matches Some(Err(e)) ==> self@.error == Some(e@),
            self@.finished() && self@.error is None ==> r matches Some(Ok(_)),
    {
        if self.next.is_some() {
            None
        } else {
            match self.error {
                None => Some(Ok(())),
                Some(e) => Some(Err(e)),
            }
        }
    }
}

/// Whether `reply` reports a failure.
pub open spec fn is_failure(reply: Option<Seq<char>>) -> bool {
    reply is Some
}

/// A transfer that meets no failure in its first `k` steps stands before step
/// `k`, or is over without an error once all four are taken.
pub proof fn lemma_steps_run_in_order(
    local: Seq<char>,
    remote: Seq<char>,
    replies: Seq<Option<Seq<char>>>,
)
    requires
        replies.len() <= 4,
        forall|i: int| 0 <= i < replies.len() ==> !is_failure(#[trigger] replies[i]),
    ensures
        ({
            let end = FileTransferView::start(local, remote).run(replies);
            &&& end.error is None
            &&& end.local == local
            &&& end.remote == remote
            &&& replies.len() < 4 ==> end.next is Some && end.next->0.ordinal() == replies.len()
            &&& replies.len() == 4 ==> end.finished()
        }),
{
    let s0 = FileTransferView::start(local, remote);
    reveal_with_fuel(FileTransferView::run, 5);
    if replies.len() >= 1 {
        let r1 = replies.drop_first();
        assert(r1.len() == replies.len() - 1);
        if r1.len() >= 1 {
            assert(r1[0] == replies[1]);
            let r2 = r1.drop_first();
            if r2.len() >= 1 {
                assert(r2[0] == replies[2]);
                let r3 = r2.drop_first();
                if r3.len() >= 1 {
                    assert(r3[0] == replies[3]);
                    assert(r3.drop_first().len() == 0);
                }
            }
        }
    }
}

/// Once a transfer is over, further replies change nothing.
pub proof fn lemma_finished_stays(t: FileTransferView, replies: Seq<Option<Seq<char>>>)
    requires
        t.finished(),
    ensures
        t.run(replies) == t,
    decreases replies.len(),
{
    if replies.len() > 0 {
        lemma_finished_stays(t, replies.drop_first());
    }
}

/// The first failing step ends the transfer: the error names that step and
/// carries its report, and whatever replies follow are ignored.
pub proof fn lemma_first_failure_ends_transfer(
    local: Seq<char>,
    remote: Seq<char>,
    replies: Seq<Option<Seq<char>>>,
    k: int,
)
    requires
        0 <= k < replies.len(),
        k < 4,
        forall|i: int| 0 <= i < k ==> !is_failure(#[trigger] replies[i]),
        is_failure(replies[k]),
    ensures
        ({
            let end = FileTransferView::start(local, remote).run(replies);
            &&& end.finished()
            &&& end.error matches Some(e)
            &&& e.step.ordinal() == k
            &&& Some(e.detail) == replies[k]
        }),
{
    let s0 = FileTransferView::start(local, remote);
    let before = replies.take(k);
    let after = replies.skip(k);
    lemma_steps_run_in_order(local, remote, before);
    lemma_run_splits(s0, replies, k);
    let mid = s0.run(before);
    assert(after[0] == replies[k]);
    let failed = mid.advance(after[0]);
    assert(failed.finished());
    lemma_finished_stays(failed, after.drop_first());
}

/// Running a list of replies is running its front, then its back.
pub proof fn lemma_run_splits(t: FileTransferView, replies: Seq<Option<Seq<char>>>, k: int)
    requires
        0 <= k <= replies.len(),
    ensures
        t.run(replies) == t.run(replies.take(k)).run(replies.skip(k)),
    decreases k,
{
    if k == 0 {
        assert(replies.skip(0) =~= replies);
        assert(replies.take(0).len() == 0);
    } else {
        let rest = replies.drop_first();
        lemma_run_splits(t.advance(replies[0]), rest, k - 1);
        assert(rest.take(k - 1) =~= replies.take(k).drop_first());
        assert(rest.skip(k - 1) =~= replies.skip(k));
        assert(replies.take(k)[0] == replies[0]);
    }
}

} // verus!
