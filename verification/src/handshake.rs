//! Setting up the session with one host.
//!
//! Five steps run in order: dial the host, sign in with the password, open a
//! session channel, ask for the `sftp` subsystem on it, and start the file
//! protocol. The first step that does not succeed ends the handshake with an
//! error; nothing is tried twice.

use crate::ssh::{AddressError, Endpoint, EndpointView, Ssh, SshView, endpoint_of};
use vstd::prelude::*;

verus! {

/// One step of the handshake.
#[derive(Debug, Clone, Copy, PartialEq, Eq, Structural)]
pub enum ConnectStep {
    Dial,
    Authenticate,
    OpenChannel,
    RequestSubsystem,
    StartSftp,
}

impl ConnectStep {
    /// The step that follows this one, if any.
    pub open spec fn successor(self) -> Option<ConnectStep> {
        match self {
            ConnectStep::Dial => Some(ConnectStep::Authenticate),
            ConnectStep::Authenticate => Some(ConnectStep::OpenChannel),
            ConnectStep::OpenChannel => Some(ConnectStep::RequestSubsystem),
            ConnectStep::RequestSubsystem => Some(ConnectStep::StartSftp),
            ConnectStep::StartSftp => None,
        }
    }

    /// The place of this step in the order of steps, from 0.
    pub open spec fn ordinal(self) -> int {
        match self {
            ConnectStep::Dial => 0,
            ConnectStep::Authenticate => 1,
            ConnectStep::OpenChannel => 2,
            ConnectStep::RequestSubsystem => 3,
            ConnectStep::StartSftp => 4,
        }
    }

    /// The step that follows this one, if any.
    pub fn next(self) -> (r: Option<ConnectStep>)
        ensures
            r == self.successor(),
    {
        match self {
            ConnectStep::Dial => Some(ConnectStep::Authenticate),
            ConnectStep::Authenticate => Some(ConnectStep::OpenChannel),
            ConnectStep::OpenChannel => Some(ConnectStep::RequestSubsystem),
            ConnectStep::RequestSubsystem => Some(ConnectStep::StartSftp),
            ConnectStep::StartSftp => None,
        }
    }
}

/// The kinds of failure that keep a host from being served.
#[derive(Debug, Clone, Copy, PartialEq, Eq, Structural)]
pub enum ConnectionErrorKind {
    /// The address is not of the form `host:port`.
    InvalidAddress,
    /// The host could not be reached.
    Unreachable,
    /// The host turned the login down.
    AuthenticationFailed,
    /// The session was reached but could not be set up.
    Negotiation,
    /// The task that served the host ended abnormally.
    TaskFailed,
}

/// Why a host was not served: the kind of failure, and what the failing
/// operation reported.
#[derive(Debug, Clone, PartialEq, Eq)]
pub struct ConnectionError {
    pub kind: ConnectionErrorKind,
    pub detail: String,
}

/// What a `ConnectionError` holds, the report as a character sequence.
pub struct ConnectionErrorView {
    pub kind: ConnectionErrorKind,
    pub detail: Seq<char>,
}

impl View for ConnectionError {
    type V = ConnectionErrorView;

    open spec fn view(&self) -> ConnectionErrorView {
        ConnectionErrorView { kind: self.kind, detail: self.detail@ }
    }
}

/// The view of an optional error.
pub open spec fn connection_error_view(e: Option<ConnectionError>) -> Option<
    ConnectionErrorView,
> {
    match e {
        Some(e) => Some(e@),
        None => None,
    }
}

/// How one step of the handshake ended.
#[derive(Debug, PartialEq, Eq)]
pub enum ConnectReply {
    /// The step succeeded.
    Done,
    /// The host answered and said no.
    Refused,
    /// The step could not be carried out.
    Failed(String),
}

/// What a `ConnectReply` holds, the report as a character sequence.
pub enum ConnectReplyView {
    Done,
    Refused,
    Failed(Seq<char>),
}

impl View for ConnectReply {
    type V = ConnectReplyView;

    open spec fn view(&self) -> ConnectReplyView {
        match self {
            ConnectReply::Done => ConnectReplyView::Done,
            ConnectReply::Refused => ConnectReplyView::Refused,
            ConnectReply::Failed(detail) => ConnectReplyView::Failed(detail@),
        }
    }
}

/// What the caller is asked to do next for a handshake.
#[derive(Debug, Clone, PartialEq, Eq)]
pub enum ConnectCommand {
    /// Open a connection to `host` at `port`.
    Dial { host: String, port: u16 },
    /// Sign in with a password.
    Authenticate { username: String, password: String },
    /// Open a session channel.
    OpenChannel,
    /// Ask for the subsystem `name` on the channel, and wait for the answer
    /// if `want_reply` is set.
    RequestSubsystem { name: String, want_reply: bool },
    /// Start the file protocol on the channel.
    StartSftp,
    /// The session is ready for transfers.
    Ready,
    /// The handshake is over and no session was set up.
    Failed(ConnectionError),
}

/// What a `ConnectCommand` holds, texts as character sequences.
pub enum ConnectCommandView {
    Dial { host: Seq<char>, port: u16 },
    Authenticate { username: Seq<char>, password: Seq<char> },
    OpenChannel,
    RequestSubsystem { name: Seq<char>, want_reply: bool },
    StartSftp,
    Ready,
    Failed(ConnectionErrorView),
}

impl View for ConnectCommand {
    type V = ConnectCommandView;

    open spec fn view(&self) -> ConnectCommandView {
        match self {
            ConnectCommand::Dial { host, port } => ConnectCommandView::Dial {
                host: host@,
                port: *port,
            },
            ConnectCommand::Authenticate { username, password } => {
                ConnectCommandView::Authenticate { username: username@, password: password@ }
            },
            ConnectCommand::OpenChannel => ConnectCommandView::OpenChannel,
            ConnectCommand::RequestSubsystem { name, want_reply } => {
                ConnectCommandView::RequestSubsystem { name: name@, want_reply: *want_reply }
            },
            ConnectCommand::StartSftp => ConnectCommandView::StartSftp,
            ConnectCommand::Ready => ConnectCommandView::Ready,
            ConnectCommand::Failed(e) => ConnectCommandView::Failed(e@),
        }
    }
}

/// The name of the subsystem that carries the file protocol.
pub open spec fn subsystem_name() -> Seq<char> {
    "sftp"@
}

/// What is reported of an address that cannot be split.
pub open spec fn address_error_text(e: AddressError) -> Seq<char> {
    match e {
        AddressError::MissingPort => "the address holds no port"@,
        AddressError::InvalidPort => "the port is not a number from 0 to 65535"@,
    }
}

/// The kind of failure that a reply other than `Done` to `step` stands for.
/// A host that cannot be dialled is unreachable; a login that the host turns
/// down has failed; everything else is a failure to set the session up.
pub open spec fn failure_kind(step: ConnectStep, reply: ConnectReplyView) -> ConnectionErrorKind {
    match (step, reply) {
        (ConnectStep::Dial, _) => ConnectionErrorKind::Unreachable,
        (ConnectStep::Authenticate, ConnectReplyView::Refused) => {
            ConnectionErrorKind::AuthenticationFailed
        },
        _ => ConnectionErrorKind::Negotiation,
    }
}

/// What a reply other than `Done` reports.
pub open spec fn failure_detail(reply: ConnectReplyView) -> Seq<char> {
    match reply {
        ConnectReplyView::Failed(detail) => detail,
        _ => Seq::empty(),
    }
}

/// A handshake, between two of its steps.
#[derive(Debug, Clone, PartialEq, Eq)]
pub struct Handshake {
    pub ssh: Ssh,
    /// Host and port as split from the address; `None` if it does not split.
    pub endpoint: Option<Endpoint>,
    /// The step to take next; `None` once the handshake is over.
    pub next: Option<ConnectStep>,
    /// Set once the handshake has failed.
    pub error: Option<ConnectionError>,
}

/// What a `Handshake` holds, as mathematical values.
pub struct HandshakeView {
    pub ssh: SshView,
    pub endpoint: Option<EndpointView>,
    pub next: Option<ConnectStep>,
    pub error: Option<ConnectionErrorView>,
}

impl View for Handshake {
    type V = HandshakeView;

    open spec fn view(&self) -> HandshakeView {
        HandshakeView {
            ssh: self.ssh@,
            endpoint: match self.endpoint {
                Some(e) => Some(e@),
                None => None,
            },
            next: self.next,
            error: connection_error_view(self.error),
        }
    }
}

impl HandshakeView {
    /// The handshake for `ssh` before its first step. With an address that
    /// does not split into host and port it is over before it begins.
    pub open spec fn start(ssh: SshView) -> HandshakeView {
        match endpoint_of(ssh.host) {
            Ok(endpoint) => HandshakeView {
                ssh,
                endpoint: Some(endpoint),
                next: Some(ConnectStep::Dial),
                error: None,
            },
            Err(e) => HandshakeView {
                ssh,
                endpoint: None,
                next: None,
                error: Some(
                    ConnectionErrorView {
                        kind: ConnectionErrorKind::InvalidAddress,
                        detail: address_error_text(e),
                    },
                ),
            },
        }
    }

    /// What holds of every handshake that began at `start`: while a step is
    /// pending there is a place to dial and no error, and the place is the
    /// one that the address of the login names.
    pub open spec fn wf(self) -> bool {
        &&& self.next is Some ==> self.endpoint is Some && self.error is None
        &&& self.endpoint matches Some(e) ==> endpoint_of(self.ssh.host) == Ok::<
            EndpointView,
            AddressError,
        >(e)
    }

    /// Whether every step was taken or one has failed.
    pub open spec fn finished(self) -> bool {
        self.next is None
    }

    /// Whether the handshake is over and the session stands.
    pub open spec fn ready(self) -> bool {
        self.next is None && self.error is None
    }

    /// What the caller is asked to do in this state.
    pub open spec fn command(self) -> ConnectCommandView {
        match self.next {
            Some(ConnectStep::Dial) => match self.endpoint {
                Some(e) => ConnectCommandView::Dial { host: e.host, port: e.port },
                None => ConnectCommandView::Dial { host: self.ssh.host, port: 0 },
            },
            Some(ConnectStep::Authenticate) => ConnectCommandView::Authenticate {
                username: self.ssh.username,
                password: self.ssh.password,
            },
            Some(ConnectStep::OpenChannel) => ConnectCommandView::OpenChannel,
            Some(ConnectStep::RequestSubsystem) => ConnectCommandView::RequestSubsystem {
                name: subsystem_name(),
                want_reply: true,
            },
            Some(ConnectStep::StartSftp) => ConnectCommandView::StartSftp,
            None => match self.error {
                None => ConnectCommandView::Ready,
                Some(e) => ConnectCommandView::Failed(e),
            },
        }
    }

    /// The state after the pending step has ended as `reply` says. A
    /// handshake that is over stays as it is.
    pub open spec fn advance(self, reply: ConnectReplyView) -> HandshakeView {
        match self.next {
            None => self,
            Some(step) => match reply {
                ConnectReplyView::Done => HandshakeView { next: step.successor(), ..self },
                _ => HandshakeView {
                    next: None,
                    error: Some(
                        ConnectionErrorView {
                            kind: failure_kind(step, reply),
                            detail: failure_detail(reply),
                        },
                    ),
                    ..self
                },
            },
        }
    }

    /// The state after the replies `replies` have come in, one per step.
    pub open spec fn run(self, replies: Seq<ConnectReplyView>) -> HandshakeView
        decreases replies.len(),
    {
        if replies.len() == 0 {
            self
        } else {
            self.advance(replies[0]).run(replies.drop_first())
        }
    }
}

impl Ssh {
    /// Begins the handshake with the host of this login. Nothing is sent
    /// yet: the result says what to do first.
    pub fn connect(&self) -> (h: Handshake)
        ensures
            h@ == HandshakeView::start(self@),
    {
        let ssh = Ssh {
            host: self.host.clone(),
            username: self.username.clone(),
            password: self.password.clone(),
        };
        match self.endpoint() {
            Ok(endpoint) => Handshake {
                ssh,
                endpoint: Some(endpoint),
                next: Some(ConnectStep::Dial),
                error: None,
            },
            Err(e) => {
                let detail = match e {
                    AddressError::MissingPort => String::from_str("the address holds no port"),
                    AddressError::InvalidPort => String::from_str(
                        "the port is not a number from 0 to 65535",
                    ),
                };
                Handshake {
                    ssh,
                    endpoint: None,
                    next: None,
                    error: Some(
                        ConnectionError { kind: ConnectionErrorKind::InvalidAddress, detail },
                    ),
                }
            },
        }
    }
}

impl Handshake {
    /// What to do next.
    pub fn command(&self) -> (c: ConnectCommand)
        ensures
            c@ == self@.command(),
    {
        match self.next {
            Some(ConnectStep::Dial) => match &self.endpoint {
                Some(e) => ConnectCommand::Dial { host: e.host.clone(), port: e.port },
                None => ConnectCommand::Dial { host: self.ssh.host.clone(), port: 0 },
            },
            Some(ConnectStep::Authenticate) => ConnectCommand::Authenticate {
                username: self.ssh.username.clone(),
                password: self.ssh.password.clone(),
            },
            Some(ConnectStep::OpenChannel) => ConnectCommand::OpenChannel,
            Some(ConnectStep::RequestSubsystem) => ConnectCommand::RequestSubsystem {
                name: String::from_str("sftp"),
                want_reply: true,
            },
            Some(ConnectStep::StartSftp) => ConnectCommand::StartSftp,
            None => match &self.error {
                None => ConnectCommand::Ready,
                Some(e) => ConnectCommand::Failed(
                    ConnectionError { kind: e.kind, detail: e.detail.clone() },
                ),
            },
        }
    }

    /// Records how the pending step ended and moves on: to the next step
    /// after a success, to the end after anything else.
    pub fn advance(&mut self, reply: ConnectReply)
        ensures
            final(self)@ == old(self)@.advance(reply@),
    {
        match self.next {
            None => {},
            Some(step) => match reply {
                ConnectReply::Done => {
                    self.next = step.next();
                },
                ConnectReply::Refused => {
                    let kind = match step {
                        ConnectStep::Dial => ConnectionErrorKind::Unreachable,
                        ConnectStep::Authenticate => ConnectionErrorKind::AuthenticationFailed,
                        _ => ConnectionErrorKind::Negotiation,
                    };
                    self.next = None;
                    self.error = Some(ConnectionError { kind, detail: String::new() });
                },
                ConnectReply::Failed(detail) => {
                    let kind = match step {
                        ConnectStep::Dial => ConnectionErrorKind::Unreachable,
                        _ => ConnectionErrorKind::Negotiation,
                    };
                    self.next = None;
                    self.error = Some(ConnectionError { kind, detail });
                },
            },
        }
    }

    /// Whether every step was taken or one has failed.
    pub fn finished(&self) -> (b: bool)
        ensures
            b == self@.finished(),
    {
        self.next.is_none()
    }

    /// How the handshake ended, once it is over: `Ok` when the session
    /// stands, the error when it does not.
    pub fn into_result(self) -> (r: Option<Result<(), ConnectionError>>)
        ensures
            r is Some == self@.finished(),
            r matches Some(Ok(_)) ==> self@.ready(),
            r matches Some(Err(e)) ==> self@.error == Some(e@),
            self@.ready() ==> r matches Some(Ok(_)),
    {
        if self.next.is_some() {
            None
        } else {
            match self.error {
                None => Some(Ok(())),
                Some(e) => Some(Err(e)),
            }
        }
    }
}

/// A handshake is well formed when it begins and stays so with every reply;
/// no reply changes the login or the place to dial.
pub proof fn lemma_advance_keeps_wf(ssh: SshView, h: HandshakeView, reply: ConnectReplyView)
    requires
        h.wf(),
    ensures
        HandshakeView::start(ssh).wf(),
        h.advance(reply).wf(),
        h.advance(reply).ssh == h.ssh,
        h.advance(reply).endpoint == h.endpoint,
{
}

/// Whether `reply` reports anything but success.
pub open spec fn is_setback(reply: ConnectReplyView) -> bool {
    !(reply is Done)
}

/// Running a list of replies is running its front, then its back.
pub proof fn lemma_run_splits(h: HandshakeView, replies: Seq<ConnectReplyView>, k: int)
    requires
        0 <= k <= replies.len(),
    ensures
        h.run(replies) == h.run(replies.take(k)).run(replies.skip(k)),
    decreases k,
{
    if k == 0 {
        assert(replies.skip(0) =~= replies);
        assert(replies.take(0).len() == 0);
    } else {
        let rest = replies.drop_first();
        lemma_run_splits(h.advance(replies[0]), rest, k - 1);
        assert(rest.take(k - 1) =~= replies.take(k).drop_first());
        assert(rest.skip(k - 1) =~= replies.skip(k));
        assert(replies.take(k)[0] == replies[0]);
    }
}

/// Once a handshake is over, further replies change nothing.
pub proof fn lemma_finished_stays(h: HandshakeView, replies: Seq<ConnectReplyView>)
    requires
        h.finished(),
    ensures
        h.run(replies) == h,
    decreases replies.len(),
{
    if replies.len() > 0 {
        lemma_finished_stays(h, replies.drop_first());
    }
}

/// With an address that splits, a handshake whose first `k` steps succeed
/// stands before step `k`, or is ready once all five have succeeded.
pub proof fn lemma_steps_run_in_order(ssh: SshView, replies: Seq<ConnectReplyView>)
    requires
        endpoint_of(ssh.host) is Ok,
        replies.len() <= 5,
        forall|i: int| 0 <= i < replies.len() ==> !is_setback(#[trigger] replies[i]),
    ensures
        ({
            let end = HandshakeView::start(ssh).run(replies);
            &&& end.error is None
            &&& end.ssh == ssh
            &&& end.endpoint == Some(endpoint_of(ssh.host)->Ok_0)
            &&& replies.len() < 5 ==> end.next is Some && end.next->0.ordinal() == replies.len()
            &&& replies.len() == 5 ==> end.ready()
        }),
    decreases replies.len(),
{
    let s0 = HandshakeView::start(ssh);
    if replies.len() > 0 {
        let k = replies.len() - 1;
        let front = replies.take(k);
        lemma_steps_run_in_order(ssh, front);
        lemma_run_splits(s0, replies, k);
        let back = replies.skip(k);
        assert(back[0] == replies[k]);
        assert(back.drop_first().len() == 0);
        let mid = s0.run(front);
        assert(mid.run(back) == mid.advance(back[0]).run(back.drop_first()));
    }
}

/// The first step that does not succeed ends the handshake: no session
/// stands, the error is of the kind that belongs to that step and reply, and
/// whatever replies follow are ignored.
pub proof fn lemma_first_setback_ends_handshake(
    ssh: SshView,
    replies: Seq<ConnectReplyView>,
    k: int,
)
    requires
        endpoint_of(ssh.host) is Ok,
        0 <= k < replies.len(),
        k < 5,
        forall|i: int| 0 <= i < k ==> !is_setback(#[trigger] replies[i]),
        is_setback(replies[k]),
    ensures
        ({
            let end = HandshakeView::start(ssh).run(replies);
            &&& end.finished()
            &&& !end.ready()
            &&& end.error matches Some(e)
            &&& exists|step: ConnectStep|
                step.ordinal() == k && e.kind == failure_kind(step, replies[k])
            &&& e.detail == failure_detail(replies[k])
        }),
{
    let s0 = HandshakeView::start(ssh);
    let front = replies.take(k);
    let back = replies.skip(k);
    lemma_steps_run_in_order(ssh, front);
    lemma_run_splits(s0, replies, k);
    let mid = s0.run(front);
    assert(back[0] == replies[k]);
    let failed = mid.advance(back[0]);
    assert(failed.finished());
    lemma_finished_stays(failed, back.drop_first());
    assert(mid.next->0.ordinal() == k);
}

/// An address that does not split into host and port fails the handshake
/// before anything is dialled.
pub proof fn lemma_bad_address_fails_at_once(ssh: SshView, replies: Seq<ConnectReplyView>)
    requires
        endpoint_of(ssh.host) is Err,
    ensures
        ({
            let end = HandshakeView::start(ssh).run(replies);
            &&& end.finished()
            &&& end.error matches Some(e)
            &&& e.kind == ConnectionErrorKind::InvalidAddress
            &&& end.command() is Failed
        }),
{
    lemma_finished_stays(HandshakeView::start(ssh), replies);
}

} // verus!
