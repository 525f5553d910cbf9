//! The session actor as a transition function.
//!
//! The embedding application owns the transport, the channels and the queues.
//! It feeds every event to [`Session::step`], in arrival order, and performs
//! the actions that come back, in the order given.

use vstd::prelude::*;
use vstd::string::StringExecFns;
use crate::error::CoreError;

verus! {

/// What the remote side of a channel sent.
#[derive(Debug, Clone, PartialEq, Eq)]
pub enum ChannelEvent {
    /// Payload bytes.
    Data(Vec<u8>),
    /// The exit status of the remote process.
    ExitStatus(u32),
    /// End of the remote stream.
    Eof,
    /// The channel was closed.
    Close,
    /// Any other channel message; it carries nothing the session reads.
    Other,
}

/// A unit of work routed to one session's run loop. `R` is the single-use
/// reply slot of a request/reply call.
#[derive(Debug, Clone, PartialEq, Eq)]
pub enum ControlMessage<R> {
    /// Raw bytes for the remote shell, sent as they are.
    Write(Vec<u8>),
    /// The terminal window changed size.
    Resize { cols: u16, rows: u16 },
    /// End the session.
    Close,
    /// Run `command` on a separate channel and answer through `reply`.
    Exec { command: String, reply: R },
}

/// What a connection is used for.
#[derive(Debug, Clone, Copy, PartialEq, Eq, Structural)]
pub enum SessionKind {
    /// A terminal: one long-lived shell channel.
    Interactive,
    /// File transfer over the file-transfer subsystem.
    FileTransfer,
    /// Out-of-band commands only.
    Monitoring,
}

/// One step of bringing a session up.
#[derive(Debug, Clone, Copy, PartialEq, Eq, Structural)]
pub enum StartupStep {
    /// Open the transport to the host.
    OpenTransport,
    /// Authenticate with the password.
    Authenticate,
    /// Open a session channel.
    OpenChannel,
    /// Request a pseudo-terminal of the initial size.
    RequestPty,
    /// Request the remote shell.
    RequestShell,
    /// Request the file-transfer subsystem.
    RequestSubsystem,
    /// Start the file-transfer protocol on the channel.
    OpenFileTransfer,
}

/// Why a session ended abnormally.
#[derive(Debug, Clone, PartialEq, Eq)]
pub enum SessionFailure {
    /// A startup step failed with this message.
    Startup { step: StartupStep, message: String },
    /// No password was supplied; only password authentication is supported.
    AuthUnsupported,
    /// The server refused the user name or password.
    AuthRejected,
    /// Sending bytes to the remote shell failed while the session was running.
    Send(String),
    /// The registry refused the session, because another session was filed
    /// under its identifier while it started.
    IdentifierTaken,
}

/// What is said of a startup step that failed, before the reason.
pub open spec fn step_label(step: StartupStep) -> Seq<char> {
    match step {
        StartupStep::OpenTransport => "connection failed: "@,
        StartupStep::Authenticate => "authentication failed: "@,
        StartupStep::OpenChannel => "opening the channel failed: "@,
        StartupStep::RequestPty => "requesting the terminal failed: "@,
        StartupStep::RequestShell => "starting the shell failed: "@,
        StartupStep::RequestSubsystem => "requesting the file-transfer subsystem failed: "@,
        StartupStep::OpenFileTransfer => "starting the file transfer failed: "@,
    }
}

impl SessionFailure {
    /// The message for the person at the display.
    pub open spec fn message_of(self) -> Seq<char> {
        match self {
            SessionFailure::Startup { step, message } => step_label(step) + message@,
            SessionFailure::AuthUnsupported => "only password authentication is supported"@,
            SessionFailure::AuthRejected => "authentication failed: wrong user name or password"@,
            SessionFailure::Send(message) => "sending to the remote shell failed: "@ + message@,
            SessionFailure::IdentifierTaken => "another session holds this identifier"@,
        }
    }

    /// The failure as the error of the connection attempt or of the
    /// session: a transport error with the failure's message.
    pub fn into_error(self) -> (error: CoreError)
        ensures
            match error {
                CoreError::Transport(message) => message@ == self.message_of(),
                _ => false,
            },
    {
        let message = match self {
            SessionFailure::Startup { step, message } => {
                let mut text = String::from_str(
                    match step {
                        StartupStep::OpenTransport => "connection failed: ",
                        StartupStep::Authenticate => "authentication failed: ",
                        StartupStep::OpenChannel => "opening the channel failed: ",
                        StartupStep::RequestPty => "requesting the terminal failed: ",
                        StartupStep::RequestShell => "starting the shell failed: ",
                        StartupStep::RequestSubsystem => {
                            "requesting the file-transfer subsystem failed: "
                        },
                        StartupStep::OpenFileTransfer => "starting the file transfer failed: ",
                    },
                );
                text.append(message.as_str());
                text
            },
            SessionFailure::AuthUnsupported => String::from_str(
                "only password authentication is supported",
            ),
            SessionFailure::AuthRejected => String::from_str(
                "authentication failed: wrong user name or password",
            ),
            SessionFailure::Send(message) => {
                let mut text = String::from_str("sending to the remote shell failed: ");
                text.append(message.as_str());
                text
            },
            SessionFailure::IdentifierTaken => String::from_str(
                "another session holds this identifier",
            ),
        };
        CoreError::Transport(message)
    }
}

/// Where a session stands.
#[derive(Debug, Clone, Copy, PartialEq, Eq, Structural)]
pub enum Phase {
    /// Created, nothing requested yet.
    Idle,
    /// Waiting for the session that held the identifier before to be torn
    /// down.
    Replacing,
    /// Waiting for the outcome of this startup step.
    Starting(StartupStep),
    /// Registered and serving.
    Running,
    /// Over; nothing more is forwarded.
    Terminated,
}

/// One input to the session.
#[derive(Debug, Clone, PartialEq, Eq)]
pub enum SessionEvent<R> {
    /// The caller asks the session to start; nothing is registered under its
    /// identifier.
    Start,
    /// The caller asks the session to start on an identifier that another
    /// session held until now; that session's entry was taken out of the
    /// registry.
    StartReplacing,
    /// The session that held the identifier before has closed its channel
    /// and disconnected.
    PredecessorGone,
    /// The pending startup step succeeded.
    StepOk,
    /// The server answered the authentication request with a refusal.
    AuthRefused,
    /// The pending startup step failed with this message.
    StepFailed(String),
    /// Something arrived from the remote channel.
    Remote(ChannelEvent),
    /// A control message arrived.
    Control(ControlMessage<R>),
    /// A `SendData` action could not be carried out.
    SendFailed(String),
    /// A `ChangeWindow` action could not be carried out.
    WindowChangeFailed(String),
    /// Both event sources have ended.
    SourcesExhausted,
    /// The `Register` action could not be carried out: the registry holds
    /// another session under the identifier.
    RegisterRefused,
    /// Another session is about to start under this session's identifier
    /// and waits for this one to be gone; this session's entry was taken out
    /// of the registry.
    Displaced,
}

/// One thing the embedding application must do for the session.
#[derive(Debug, Clone, PartialEq, Eq)]
pub enum SessionAction<R> {
    /// Tell the session that held the identifier before that it is displaced,
    /// and wait until it has closed its channel and disconnected.
    RetirePredecessor,
    /// Open the transport to the host.
    OpenTransport,
    /// Authenticate with the password.
    Authenticate,
    /// Open a session channel.
    OpenChannel,
    /// Request a pseudo-terminal of this size.
    RequestPty { cols: u16, rows: u16 },
    /// Request the remote shell.
    RequestShell,
    /// Request the file-transfer subsystem on the channel.
    RequestSubsystem,
    /// Start the file-transfer protocol on the channel.
    OpenFileTransfer,
    /// Insert the session into the registry.
    Register,
    /// Forward these bytes to the display, unchanged.
    EmitOutput(Vec<u8>),
    /// Send these bytes to the remote shell, unchanged.
    SendData(Vec<u8>),
    /// Ask the remote side to change the window size.
    ChangeWindow { cols: u16, rows: u16 },
    /// Run the command on a new channel of the shared transport, concurrently
    /// with the forwarding path, and write the result to `reply`.
    SpawnExec { command: String, reply: R },
    /// The session is gone: make the caller behind `reply` see that.
    RejectExec { reply: R },
    /// Close the shell channel.
    CloseChannel,
    /// Disconnect the transport.
    Disconnect,
    /// Remove the session from the registry.
    Unregister,
    /// Tell the display that the session has exited.
    EmitExited,
    /// Tell the display that the session failed.
    EmitError(SessionFailure),
}

/// A session: what it is for, its phase, the initial window size, and whether
/// a password was supplied.
#[derive(Debug, Clone, Copy, PartialEq, Eq)]
pub struct Session {
    pub kind: SessionKind,
    pub phase: Phase,
    pub cols: u16,
    pub rows: u16,
    pub has_password: bool,
}

/// The actions that end a running session, in order. Only a terminal has a
/// shell channel to close and an exit to report.
pub open spec fn teardown<R>(kind: SessionKind) -> Seq<SessionAction<R>> {
    if kind == SessionKind::Interactive {
        seq![
            SessionAction::CloseChannel,
            SessionAction::Disconnect,
            SessionAction::Unregister,
            SessionAction::EmitExited,
        ]
    } else {
        seq![SessionAction::Disconnect, SessionAction::Unregister]
    }
}

/// The actions that end a running session whose identifier has passed to
/// another session: the same without the last two, because the registry
/// entry and the display now belong to the other session.
pub open spec fn quiet_teardown<R>(kind: SessionKind) -> Seq<SessionAction<R>> {
    if kind == SessionKind::Interactive {
        seq![SessionAction::CloseChannel, SessionAction::Disconnect]
    } else {
        seq![SessionAction::Disconnect]
    }
}

/// The startup step that follows `step` for a session of this kind, or `None`
/// where `step` is the last one.
///
/// A terminal opens the transport, authenticates, opens a channel, requests a
/// pseudo-terminal and then the shell. A file-transfer session replaces the
/// last two by the subsystem request and the protocol start. A monitoring
/// session is up once it has authenticated.
pub open spec fn step_after(kind: SessionKind, step: StartupStep) -> Option<StartupStep> {
    match (step, kind) {
        (StartupStep::OpenTransport, _) => Some(StartupStep::Authenticate),
        (StartupStep::Authenticate, SessionKind::Monitoring) => None,
        (StartupStep::Authenticate, _) => Some(StartupStep::OpenChannel),
        (StartupStep::OpenChannel, SessionKind::Interactive) => Some(StartupStep::RequestPty),
        (StartupStep::OpenChannel, SessionKind::FileTransfer) => Some(
            StartupStep::RequestSubsystem,
        ),
        (StartupStep::RequestPty, SessionKind::Interactive) => Some(StartupStep::RequestShell),
        (StartupStep::RequestSubsystem, SessionKind::FileTransfer) => Some(
            StartupStep::OpenFileTransfer,
        ),
        _ => None,
    }
}

/// The action that carries out a startup step.
pub open spec fn action_of<R>(s: Session, step: StartupStep) -> SessionAction<R> {
    match step {
        StartupStep::OpenTransport => SessionAction::OpenTransport,
        StartupStep::Authenticate => SessionAction::Authenticate,
        StartupStep::OpenChannel => SessionAction::OpenChannel,
        StartupStep::RequestPty => SessionAction::RequestPty { cols: s.cols, rows: s.rows },
        StartupStep::RequestShell => SessionAction::RequestShell,
        StartupStep::RequestSubsystem => SessionAction::RequestSubsystem,
        StartupStep::OpenFileTransfer => SessionAction::OpenFileTransfer,
    }
}

/// True where the transport is open and no password was supplied to go on
/// with.
pub open spec fn lacks_password(s: Session, step: StartupStep) -> bool {
    step == StartupStep::OpenTransport && !s.has_password
}

/// True for the remote events that end a terminal: the end of the stream
/// and the close of the channel.
pub open spec fn ends_stream(remote: ChannelEvent) -> bool {
    remote is Eof || remote is Close
}

/// The event that starts a session: a plain start where its identifier is
/// free, and a start that first retires the earlier session where it is
/// taken.
pub open spec fn opening<R>(taken: bool) -> SessionEvent<R> {
    if taken {
        SessionEvent::StartReplacing
    } else {
        SessionEvent::Start
    }
}

/// The phase that follows `event`.
pub open spec fn next_phase<R>(s: Session, event: SessionEvent<R>) -> Phase {
    let interactive = s.kind == SessionKind::Interactive;
    match (s.phase, event) {
        (Phase::Idle, SessionEvent::Start) => Phase::Starting(StartupStep::OpenTransport),
        (Phase::Idle, SessionEvent::StartReplacing) => Phase::Replacing,
        (Phase::Replacing, SessionEvent::PredecessorGone) => Phase::Starting(
            StartupStep::OpenTransport,
        ),
        (Phase::Starting(step), SessionEvent::StepOk) => if lacks_password(s, step) {
            Phase::Terminated
        } else {
            match step_after(s.kind, step) {
                Some(following) => Phase::Starting(following),
                None => Phase::Running,
            }
        },
        (Phase::Starting(StartupStep::Authenticate), SessionEvent::AuthRefused) => {
            Phase::Terminated
        },
        (Phase::Starting(_), SessionEvent::StepFailed(_)) => Phase::Terminated,
        (Phase::Running, SessionEvent::Remote(remote)) => if interactive && ends_stream(remote) {
            Phase::Terminated
        } else {
            Phase::Running
        },
        (Phase::Running, SessionEvent::Control(ControlMessage::Close)) => Phase::Terminated,
        (Phase::Running, SessionEvent::SendFailed(_)) => if interactive {
            Phase::Terminated
        } else {
            Phase::Running
        },
        (Phase::Running, SessionEvent::SourcesExhausted) => Phase::Terminated,
        (Phase::Running, SessionEvent::Displaced) => Phase::Terminated,
        (Phase::Running, SessionEvent::RegisterRefused) => Phase::Terminated,
        (p, _) => p,
    }
}

/// The actions that `event` asks for, in the order in which they must be
/// performed.
pub open spec fn actions_for<R>(s: Session, event: SessionEvent<R>) -> Seq<SessionAction<R>> {
    let interactive = s.kind == SessionKind::Interactive;
    match (s.phase, event) {
        (Phase::Idle, SessionEvent::Start) => seq![SessionAction::OpenTransport],
        (Phase::Idle, SessionEvent::StartReplacing) => seq![SessionAction::RetirePredecessor],
        (Phase::Replacing, SessionEvent::PredecessorGone) => seq![SessionAction::OpenTransport],
        (Phase::Starting(step), SessionEvent::StepOk) => if lacks_password(s, step) {
            seq![SessionAction::EmitError(SessionFailure::AuthUnsupported)]
        } else {
            match step_after(s.kind, step) {
                Some(following) => seq![action_of(s, following)],
                None => seq![SessionAction::Register],
            }
        },
        (Phase::Starting(StartupStep::Authenticate), SessionEvent::AuthRefused) => seq![
            SessionAction::EmitError(SessionFailure::AuthRejected),
        ],
        (Phase::Starting(step), SessionEvent::StepFailed(message)) => seq![
            SessionAction::EmitError(SessionFailure::Startup { step, message }),
        ],
        (Phase::Running, SessionEvent::Remote(remote)) => if !interactive {
            seq![]
        } else if ends_stream(remote) {
            teardown(s.kind)
        } else {
            match remote {
                ChannelEvent::Data(bytes) => seq![SessionAction::EmitOutput(bytes)],
                _ => seq![],
            }
        },
        (Phase::Running, SessionEvent::Control(ControlMessage::Write(bytes))) => if interactive {
            seq![SessionAction::SendData(bytes)]
        } else {
            seq![]
        },
        (Phase::Running, SessionEvent::Control(ControlMessage::Resize { cols, rows })) => {
            if interactive {
                seq![SessionAction::ChangeWindow { cols, rows }]
            } else {
                seq![]
            }
        },
        (Phase::Running, SessionEvent::Control(ControlMessage::Close)) => teardown(s.kind),
        (Phase::Running, SessionEvent::Control(ControlMessage::Exec { command, reply })) => seq![
            SessionAction::SpawnExec { command, reply },
        ],
        (Phase::Running, SessionEvent::SendFailed(message)) => if interactive {
            seq![SessionAction::EmitError(SessionFailure::Send(message))] + teardown(s.kind)
        } else {
            seq![]
        },
        (Phase::Running, SessionEvent::SourcesExhausted) => teardown(s.kind),
        (Phase::Running, SessionEvent::Displaced) => quiet_teardown(s.kind),
        (Phase::Running, SessionEvent::RegisterRefused) => seq![
            SessionAction::EmitError(SessionFailure::IdentifierTaken),
        ] + quiet_teardown(s.kind),
        (_, SessionEvent::Control(ControlMessage::Exec { command, reply })) => seq![
            SessionAction::RejectExec { reply },
        ],
        (_, _) => seq![],
    }
}

/// The session after `event`: only the phase changes.
pub open spec fn advance<R>(s: Session, event: SessionEvent<R>) -> Session {
    Session { phase: next_phase(s, event), ..s }
}

/// The session after a whole sequence of events, taken in order.
pub open spec fn advance_all<R>(s: Session, events: Seq<SessionEvent<R>>) -> Session
    decreases events.len(),
{
    if events.len() == 0 {
        s
    } else {
        advance_all(advance(s, events[0]), events.drop_first())
    }
}

/// The actions of a whole sequence of events: those of the first event, then
/// those of the rest.
pub open spec fn actions_for_all<R>(s: Session, events: Seq<SessionEvent<R>>) -> Seq<
    SessionAction<R>,
>
    decreases events.len(),
{
    if events.len() == 0 {
        seq![]
    } else {
        actions_for(s, events[0]) + actions_for_all(advance(s, events[0]), events.drop_first())
    }
}

/// The seconds of inactivity after which the transport of a session of this
/// kind is dropped: ten minutes for a monitoring session, five for the
/// others.
pub open spec fn inactivity_timeout_of(kind: SessionKind) -> u64 {
    if kind == SessionKind::Monitoring {
        600
    } else {
        300
    }
}

/// The seconds of inactivity after which the transport of a session of this
/// kind is dropped.
pub fn inactivity_timeout(kind: SessionKind) -> (seconds: u64)
    ensures
        seconds == inactivity_timeout_of(kind),
        300 <= seconds <= 600,
{
    match kind {
        SessionKind::Monitoring => 600,
        _ => 300,
    }
}

impl Session {
    /// A session of this kind that has not started. `cols` and `rows` are
    /// the initial size of a terminal.
    pub fn new(kind: SessionKind, cols: u16, rows: u16, has_password: bool) -> (s: Session)
        ensures
            s == (Session { kind, phase: Phase::Idle, cols, rows, has_password }),
    {
        Session { kind, phase: Phase::Idle, cols, rows, has_password }
    }

    /// True once the session is over.
    pub fn is_terminated(&self) -> (b: bool)
        ensures
            b == (self.phase == Phase::Terminated),
    {
        self.phase == Phase::Terminated
    }

    /// True while the session is registered and serving.
    pub fn is_running(&self) -> (b: bool)
        ensures
            b == (self.phase == Phase::Running),
    {
        self.phase == Phase::Running
    }

    fn is_interactive(&self) -> (b: bool)
        ensures
            b == (self.kind == SessionKind::Interactive),
    {
        self.kind == SessionKind::Interactive
    }

    fn end<R>(&mut self) -> (actions: Vec<SessionAction<R>>)
        ensures
            *final(self) == (Session { phase: Phase::Terminated, ..*old(self) }),
            actions@ == teardown::<R>(old(self).kind),
    {
        self.phase = Phase::Terminated;
        let actions = if self.is_interactive() {
            vec![
                SessionAction::CloseChannel,
                SessionAction::Disconnect,
                SessionAction::Unregister,
                SessionAction::EmitExited,
            ]
        } else {
            vec![SessionAction::Disconnect, SessionAction::Unregister]
        };
        assert(actions@ =~= teardown::<R>(self.kind));
        actions
    }

    fn end_quietly<R>(&mut self) -> (actions: Vec<SessionAction<R>>)
        ensures
            *final(self) == (Session { phase: Phase::Terminated, ..*old(self) }),
            actions@ == quiet_teardown::<R>(old(self).kind),
    {
        self.phase = Phase::Terminated;
        let actions = if self.is_interactive() {
            vec![SessionAction::CloseChannel, SessionAction::Disconnect]
        } else {
            vec![SessionAction::Disconnect]
        };
        assert(actions@ =~= quiet_teardown::<R>(self.kind));
        actions
    }

    fn fail<R>(&mut self, failure: SessionFailure) -> (actions: Vec<SessionAction<R>>)
        ensures
            *final(self) == (Session { phase: Phase::Terminated, ..*old(self) }),
            actions@ == seq![SessionAction::<R>::EmitError(failure)],
    {
        self.phase = Phase::Terminated;
        let actions = vec![SessionAction::EmitError(failure)];
        assert(actions@ =~= seq![SessionAction::<R>::EmitError(failure)]);
        actions
    }

    fn following(&self, step: StartupStep) -> (r: Option<StartupStep>)
        ensures
            r == step_after(self.kind, step),
    {
        match (step, self.kind) {
            (StartupStep::OpenTransport, _) => Some(StartupStep::Authenticate),
            (StartupStep::Authenticate, SessionKind::Monitoring) => None,
            (StartupStep::Authenticate, _) => Some(StartupStep::OpenChannel),
            (StartupStep::OpenChannel, SessionKind::Interactive) => Some(StartupStep::RequestPty),
            (StartupStep::OpenChannel, SessionKind::FileTransfer) => Some(
                StartupStep::RequestSubsystem,
            ),
            (StartupStep::RequestPty, SessionKind::Interactive) => Some(StartupStep::RequestShell),
            (StartupStep::RequestSubsystem, SessionKind::FileTransfer) => Some(
                StartupStep::OpenFileTransfer,
            ),
            _ => None,
        }
    }

    fn action<R>(&self, step: StartupStep) -> (a: SessionAction<R>)
        ensures
            a == action_of::<R>(*self, step),
    {
        match step {
            StartupStep::OpenTransport => SessionAction::OpenTransport,
            StartupStep::Authenticate => SessionAction::Authenticate,
            StartupStep::OpenChannel => SessionAction::OpenChannel,
            StartupStep::RequestPty => SessionAction::RequestPty {
                cols: self.cols,
                rows: self.rows,
            },
            StartupStep::RequestShell => SessionAction::RequestShell,
            StartupStep::RequestSubsystem => SessionAction::RequestSubsystem,
            StartupStep::OpenFileTransfer => SessionAction::OpenFileTransfer,
        }
    }

    fn step_done<R>(&mut self, step: StartupStep) -> (actions: Vec<SessionAction<R>>)
        requires
            old(self).phase == Phase::Starting(step),
        ensures
            *final(self) == advance(*old(self), SessionEvent::<R>::StepOk),
            actions@ == actions_for(*old(self), SessionEvent::<R>::StepOk),
    {
        let actions = if step == StartupStep::OpenTransport && !self.has_password {
            self.fail(SessionFailure::AuthUnsupported)
        } else {
            match self.following(step) {
                Some(following) => {
                    self.phase = Phase::Starting(following);
                    vec![self.action(following)]
                },
                None => {
                    self.phase = Phase::Running;
                    vec![SessionAction::Register]
                },
            }
        };
        assert(actions@ =~= actions_for(*old(self), SessionEvent::<R>::StepOk));
        actions
    }

    fn step_starting<R>(&mut self, event: SessionEvent<R>) -> (actions: Vec<SessionAction<R>>)
        requires
            old(self).phase != Phase::Running,
        ensures
            *final(self) == advance(*old(self), event),
            actions@ == actions_for(*old(self), event),
    {
        let phase = self.phase;
        let actions = match (phase, event) {
            (Phase::Idle, SessionEvent::Start) => {
                self.phase = Phase::Starting(StartupStep::OpenTransport);
                vec![SessionAction::OpenTransport]
            },
            (Phase::Idle, SessionEvent::StartReplacing) => {
                self.phase = Phase::Replacing;
                vec![SessionAction::RetirePredecessor]
            },
            (Phase::Replacing, SessionEvent::PredecessorGone) => {
                self.phase = Phase::Starting(StartupStep::OpenTransport);
                vec![SessionAction::OpenTransport]
            },
            (Phase::Starting(step), SessionEvent::StepOk) => self.step_done(step),
            (Phase::Starting(StartupStep::Authenticate), SessionEvent::AuthRefused) => self.fail(
                SessionFailure::AuthRejected,
            ),
            (Phase::Starting(step), SessionEvent::StepFailed(message)) => self.fail(
                SessionFailure::Startup { step, message },
            ),
            (_, SessionEvent::Control(ControlMessage::Exec { command, reply })) => {
                vec![SessionAction::RejectExec { reply }]
            },
            (_, _) => Vec::new(),
        };
        assert(actions@ =~= actions_for(*old(self), event));
        actions
    }

    fn step_terminal<R>(&mut self, event: SessionEvent<R>) -> (actions: Vec<SessionAction<R>>)
        requires
            old(self).phase == Phase::Running,
            old(self).kind == SessionKind::Interactive,
        ensures
            *final(self) == advance(*old(self), event),
            actions@ == actions_for(*old(self), event),
    {
        let actions = match event {
            SessionEvent::Remote(remote) => match remote {
                ChannelEvent::Data(bytes) => vec![SessionAction::EmitOutput(bytes)],
                ChannelEvent::Eof => self.end(),
                ChannelEvent::Close => self.end(),
                ChannelEvent::ExitStatus(_) => Vec::new(),
                ChannelEvent::Other => Vec::new(),
            },
            SessionEvent::Control(message) => match message {
                ControlMessage::Write(bytes) => vec![SessionAction::SendData(bytes)],
                ControlMessage::Resize { cols, rows } => vec![
                    SessionAction::ChangeWindow { cols, rows },
                ],
                ControlMessage::Close => self.end(),
                ControlMessage::Exec { command, reply } => vec![
                    SessionAction::SpawnExec { command, reply },
                ],
            },
            SessionEvent::SendFailed(message) => {
                let mut actions = vec![SessionAction::EmitError(SessionFailure::Send(message))];
                let mut rest = self.end();
                actions.append(&mut rest);
                actions
            },
            SessionEvent::SourcesExhausted => self.end(),
            SessionEvent::Displaced => self.end_quietly(),
            SessionEvent::RegisterRefused => {
                let mut actions = vec![SessionAction::EmitError(SessionFailure::IdentifierTaken)];
                let mut rest = self.end_quietly();
                actions.append(&mut rest);
                actions
            },
            _ => Vec::new(),
        };
        assert(actions@ =~= actions_for(*old(self), event));
        actions
    }

    fn step_plain<R>(&mut self, event: SessionEvent<R>) -> (actions: Vec<SessionAction<R>>)
        requires
            old(self).phase == Phase::Running,
            old(self).kind != SessionKind::Interactive,
        ensures
            *final(self) == advance(*old(self), event),
            actions@ == actions_for(*old(self), event),
    {
        let actions = match event {
            SessionEvent::Control(ControlMessage::Close) => self.end(),
            SessionEvent::Control(ControlMessage::Exec { command, reply }) => vec![
                SessionAction::SpawnExec { command, reply },
            ],
            SessionEvent::SourcesExhausted => self.end(),
            SessionEvent::Displaced => self.end_quietly(),
            SessionEvent::RegisterRefused => {
                let mut actions = vec![SessionAction::EmitError(SessionFailure::IdentifierTaken)];
                let mut rest = self.end_quietly();
                actions.append(&mut rest);
                actions
            },
            _ => Vec::new(),
        };
        assert(actions@ =~= actions_for(*old(self), event));
        actions
    }

    /// Takes one event and returns what must be done about it, in order.
    ///
    /// A session that starts on an identifier held by another session first
    /// asks for that session to be retired, and goes on only when told that
    /// it is gone. Startup performs the steps of the session's kind, each
    /// after the success of the one before; the success of the last one registers the
    /// session and makes it run. A failure at any step, a refused password,
    /// or a missing one once the transport is open, ends the session with one
    /// `EmitError` and without `Register`.
    ///
    /// A running terminal forwards remote data unchanged, sends writes
    /// unchanged, and treats a resize as best effort. Any running session
    /// hands an exec out to run on a channel of its own, beside the
    /// forwarding path. The end of the remote stream, the close of the
    /// channel or a failed send (on a terminal), a `Close` message, or the
    /// end of both event sources tears the session down; an exit status
    /// alone does not. A session whose identifier has passed to another
    /// one closes and disconnects without touching the registry or the
    /// display, and so does a session that the registry refused. An exec
    /// that reaches a session that is not running is
    /// rejected; anything else that does not apply is dropped.
    pub fn step<R>(&mut self, event: SessionEvent<R>) -> (actions: Vec<SessionAction<R>>)
        ensures
            *final(self) == advance(*old(self), event),
            actions@ == actions_for(*old(self), event),
    {
        if !self.is_running() {
            self.step_starting(event)
        } else if self.is_interactive() {
            self.step_terminal(event)
        } else {
            self.step_plain(event)
        }
    }

    /// Starts the session: with a plain start where `taken` is false, and
    /// where the identifier is taken, with a start that retires the earlier
    /// session before anything is opened.
    pub fn start<R>(&mut self, taken: bool) -> (actions: Vec<SessionAction<R>>)
        ensures
            *final(self) == advance(*old(self), opening::<R>(taken)),
            actions@ == actions_for(*old(self), opening::<R>(taken)),
    {
        if taken {
            self.step(SessionEvent::StartReplacing)
        } else {
            self.step(SessionEvent::Start)
        }
    }

    /// Takes a queue of events in arrival order and returns all their
    /// actions, in order.
    pub fn run<R>(&mut self, events: Vec<SessionEvent<R>>) -> (actions: Vec<SessionAction<R>>)
        ensures
            *final(self) == advance_all(*old(self), events@),
            actions@ == actions_for_all(*old(self), events@),
    {
        let mut actions: Vec<SessionAction<R>> = Vec::new();
        let ghost all = events@;
        assert(all.skip(0) =~= all);
        assert(actions@ + actions_for_all(*self, all) =~= actions_for_all(*self, all));
        for event in it: events
            invariant
                it.seq() == all,
                advance_all(*self, all.skip(it.index() as int)) == advance_all(*old(self), all),
                actions@ + actions_for_all(*self, all.skip(it.index() as int)) == actions_for_all(
                    *old(self),
                    all,
                ),
        {
            let ghost rest = all.skip(it.index() as int);
            assert(rest[0] == event);
            assert(rest.drop_first() =~= all.skip(it.index() + 1));
            let mut more = self.step(event);
            assert((actions@ + more@) + actions_for_all(*self, rest.drop_first()) =~= actions@ + (
            more@ + actions_for_all(*self, rest.drop_first())));
            actions.append(&mut more);
        }
        assert(all.skip(all.len() as int) =~= Seq::<SessionEvent<R>>::empty());
        assert(actions@ + Seq::<SessionAction<R>>::empty() =~= actions@);
        actions
    }
}

/// The payloads of the `EmitOutput` actions among `actions`, in order.
pub open spec fn emitted_output<R>(actions: Seq<SessionAction<R>>) -> Seq<Vec<u8>>
    decreases actions.len(),
{
    if actions.len() == 0 {
        seq![]
    } else {
        let head = match actions[0] {
            SessionAction::EmitOutput(bytes) => seq![bytes],
            _ => seq![],
        };
        head + emitted_output(actions.drop_first())
    }
}

/// The payloads of the `SendData` actions among `actions`, in order.
pub open spec fn sent_data<R>(actions: Seq<SessionAction<R>>) -> Seq<Vec<u8>>
    decreases actions.len(),
{
    if actions.len() == 0 {
        seq![]
    } else {
        let head = match actions[0] {
            SessionAction::SendData(bytes) => seq![bytes],
            _ => seq![],
        };
        head + sent_data(actions.drop_first())
    }
}

/// The payloads of the remote data events that reach a terminal while it is
/// running, in arrival order.
pub open spec fn received_data<R>(s: Session, events: Seq<SessionEvent<R>>) -> Seq<Vec<u8>>
    decreases events.len(),
{
    if events.len() == 0 {
        seq![]
    } else {
        let head = match events[0] {
            SessionEvent::Remote(ChannelEvent::Data(bytes)) => if s.phase == Phase::Running
                && s.kind == SessionKind::Interactive {
                seq![bytes]
            } else {
                seq![]
            },
            _ => seq![],
        };
        head + received_data(advance(s, events[0]), events.drop_first())
    }
}

/// The payloads of the `Write` messages that reach a terminal while it is
/// running, in arrival order.
pub open spec fn written_data<R>(s: Session, events: Seq<SessionEvent<R>>) -> Seq<Vec<u8>>
    decreases events.len(),
{
    if events.len() == 0 {
        seq![]
    } else {
        let head = match events[0] {
            SessionEvent::Control(ControlMessage::Write(bytes)) => if s.phase == Phase::Running
                && s.kind == SessionKind::Interactive {
                seq![bytes]
            } else {
                seq![]
            },
            _ => seq![],
        };
        head + written_data(advance(s, events[0]), events.drop_first())
    }
}

proof fn lemma_emitted_output_concat<R>(a: Seq<SessionAction<R>>, b: Seq<SessionAction<R>>)
    ensures
        emitted_output(a + b) == emitted_output(a) + emitted_output(b),
    decreases a.len(),
{
    if a.len() == 0 {
        assert(a + b =~= b);
        assert(emitted_output(a) + emitted_output(b) =~= emitted_output(b));
    } else {
        assert((a + b).drop_first() =~= a.drop_first() + b);
        lemma_emitted_output_concat(a.drop_first(), b);
        let head = match a[0] {
            SessionAction::EmitOutput(bytes) => seq![bytes],
            _ => seq![],
        };
        assert(emitted_output(a + b) =~= head + (emitted_output(a.drop_first()) + emitted_output(
            b,
        )));
        assert(emitted_output(a) + emitted_output(b) =~= head + (emitted_output(a.drop_first())
            + emitted_output(b)));
    }
}

proof fn lemma_sent_data_concat<R>(a: Seq<SessionAction<R>>, b: Seq<SessionAction<R>>)
    ensures
        sent_data(a + b) == sent_data(a) + sent_data(b),
    decreases a.len(),
{
    if a.len() == 0 {
        assert(a + b =~= b);
        assert(sent_data(a) + sent_data(b) =~= sent_data(b));
    } else {
        assert((a + b).drop_first() =~= a.drop_first() + b);
        lemma_sent_data_concat(a.drop_first(), b);
        let head = match a[0] {
            SessionAction::SendData(bytes) => seq![bytes],
            _ => seq![],
        };
        assert(sent_data(a + b) =~= head + (sent_data(a.drop_first()) + sent_data(b)));
        assert(sent_data(a) + sent_data(b) =~= head + (sent_data(a.drop_first()) + sent_data(b)));
    }
}

proof fn lemma_teardown_is_silent<R>(kind: SessionKind)
    ensures
        emitted_output(teardown::<R>(kind)) == Seq::<Vec<u8>>::empty(),
        sent_data(teardown::<R>(kind)) == Seq::<Vec<u8>>::empty(),
{
    reveal_with_fuel(emitted_output, 5);
    reveal_with_fuel(sent_data, 5);
    assert(emitted_output(teardown::<R>(kind)) =~= Seq::<Vec<u8>>::empty());
    assert(sent_data(teardown::<R>(kind)) =~= Seq::<Vec<u8>>::empty());
}

proof fn lemma_single_event_data<R>(s: Session, event: SessionEvent<R>)
    ensures
        emitted_output(actions_for(s, event)) == received_data(s, seq![event]),
        sent_data(actions_for(s, event)) == written_data(s, seq![event]),
{
    let a = actions_for(s, event);
    let one = seq![event];
    lemma_teardown_is_silent::<R>(s.kind);
    reveal_with_fuel(emitted_output, 3);
    assert(quiet_teardown::<R>(s.kind).drop_first().len() <= 1);
    assert(quiet_teardown::<R>(s.kind).len() == 2 ==> quiet_teardown::<R>(
        s.kind,
    ).drop_first().drop_first().len() == 0);
    reveal_with_fuel(sent_data, 3);
    reveal_with_fuel(received_data, 2);
    reveal_with_fuel(written_data, 2);
    assert(one[0] == event);
    assert(one.drop_first().len() == 0);
    if a.len() == 1 {
        assert(a.drop_first().len() == 0);
    }
    if event is RegisterRefused && s.phase == Phase::Running {
        let first = seq![SessionAction::<R>::EmitError(SessionFailure::IdentifierTaken)];
        let quiet = quiet_teardown::<R>(s.kind);
        lemma_emitted_output_concat(first, quiet);
        lemma_sent_data_concat(first, quiet);
        assert(first.drop_first().len() == 0);
        assert(emitted_output(quiet) =~= Seq::<Vec<u8>>::empty());
        assert(sent_data(quiet) =~= Seq::<Vec<u8>>::empty());
    }
    if let SessionEvent::SendFailed(message) = event {
        if s.phase == Phase::Running {
            let first = seq![SessionAction::<R>::EmitError(SessionFailure::Send(message))];
            lemma_emitted_output_concat(first, teardown::<R>(s.kind));
            lemma_sent_data_concat(first, teardown::<R>(s.kind));
            assert(first.drop_first().len() == 0);
        }
    }
    assert(emitted_output(a) =~= received_data(s, one));
    assert(sent_data(a) =~= written_data(s, one));
}

/// Remote output is forwarded in arrival order, each payload once and
/// unchanged, whatever control messages, execs among them, arrive in between:
/// the outputs emitted for a queue of events are the payloads of the data
/// events that reached the session while it was running.
pub proof fn law_output_keeps_arrival_order<R>(s: Session, events: Seq<SessionEvent<R>>)
    ensures
        emitted_output(actions_for_all(s, events)) == received_data(s, events),
    decreases events.len(),
{
    if events.len() > 0 {
        let rest = events.drop_first();
        let after = advance(s, events[0]);
        law_output_keeps_arrival_order(after, rest);
        lemma_emitted_output_concat(actions_for(s, events[0]), actions_for_all(after, rest));
        lemma_single_event_data(s, events[0]);
        let one = seq![events[0]];
        assert(one[0] == events[0] && one.drop_first().len() == 0);
        assert(received_data(s, events) =~= received_data(s, one) + received_data(after, rest)) by {
            reveal_with_fuel(received_data, 2);
        }
    }
}

/// Writes reach the remote shell in submission order, each payload once and
/// unchanged.
pub proof fn law_writes_keep_submission_order<R>(s: Session, events: Seq<SessionEvent<R>>)
    ensures
        sent_data(actions_for_all(s, events)) == written_data(s, events),
    decreases events.len(),
{
    if events.len() > 0 {
        let rest = events.drop_first();
        let after = advance(s, events[0]);
        law_writes_keep_submission_order(after, rest);
        lemma_sent_data_concat(actions_for(s, events[0]), actions_for_all(after, rest));
        lemma_single_event_data(s, events[0]);
        let one = seq![events[0]];
        assert(one[0] == events[0] && one.drop_first().len() == 0);
        assert(written_data(s, events) =~= written_data(s, one) + written_data(after, rest)) by {
            reveal_with_fuel(written_data, 2);
        }
    }
}

/// A session that starts on a taken identifier opens nothing before the
/// earlier session is gone: its first action is to retire that session,
/// and until it is told that the earlier session is gone it stays where it
/// is and asks for nothing but the rejection of execs. Only then does it
/// open its transport.
pub proof fn law_predecessor_is_gone_before_startup<R>(s: Session, events: Seq<SessionEvent<R>>)
    requires
        s.phase == Phase::Replacing,
        forall|i: int| 0 <= i < events.len() ==> !((#[trigger] events[i]) is PredecessorGone),
    ensures
        actions_for(Session { phase: Phase::Idle, ..s }, SessionEvent::<R>::StartReplacing)
            == seq![SessionAction::<R>::RetirePredecessor],
        next_phase(Session { phase: Phase::Idle, ..s }, SessionEvent::<R>::StartReplacing)
            == Phase::Replacing,
        advance_all(s, events).phase == Phase::Replacing,
        forall|k: int|
            0 <= k < actions_for_all(s, events).len() ==> (#[trigger] actions_for_all(
                s,
                events,
            )[k]) is RejectExec,
        actions_for(s, SessionEvent::<R>::PredecessorGone) == seq![
            SessionAction::<R>::OpenTransport,
        ],
    decreases events.len(),
{
    if events.len() > 0 {
        let rest = events.drop_first();
        assert(!(events[0] is PredecessorGone));
        assert(advance(s, events[0]) == s);
        assert forall|i: int| 0 <= i < rest.len() implies !((#[trigger] rest[i])
            is PredecessorGone) by {
            assert(rest[i] == events[i + 1]);
        }
        law_predecessor_is_gone_before_startup(s, rest);
        let head = actions_for(s, events[0]);
        let tail = actions_for_all(s, rest);
        assert forall|k: int| 0 <= k < (head + tail).len() implies (#[trigger] (head + tail)[k])
            is RejectExec by {
            if k >= head.len() {
                assert((head + tail)[k] == tail[k - head.len()]);
            }
        }
    }
}

/// Every exec gets its reply slot handled exactly once: a running session
/// hands the command out with the slot, any other session rejects it with
/// the slot, and neither asks for anything else.
pub proof fn law_exec_is_answered_once<R>(s: Session, command: String, reply: R)
    ensures
        ({
            let event = SessionEvent::Control(ControlMessage::Exec { command, reply });
            &&& next_phase(s, event) == s.phase
            &&& s.phase == Phase::Running ==> actions_for(s, event) == seq![
                SessionAction::SpawnExec { command, reply },
            ]
            &&& s.phase != Phase::Running ==> actions_for(s, event) == seq![
                SessionAction::RejectExec { reply },
            ]
        }),
{
}

/// A terminated session stays terminated, and the only thing it still asks
/// for is the rejection of an exec that arrives too late.
pub proof fn law_terminated_is_final<R>(s: Session, event: SessionEvent<R>)
    requires
        s.phase == Phase::Terminated,
    ensures
        next_phase(s, event) == Phase::Terminated,
        match event {
            SessionEvent::Control(ControlMessage::Exec { command, reply }) => actions_for(s, event)
                == seq![SessionAction::RejectExec { reply }],
            _ => actions_for(s, event) == Seq::<SessionAction<R>>::empty(),
        },
{
}

/// A session is registered only by the success of its last startup step, and
/// that is the step that makes it run. A startup that ends the session
/// instead asks for one error report and nothing else, so it never registers
/// the session.
pub proof fn law_register_only_after_startup<R>(s: Session, event: SessionEvent<R>)
    ensures
        actions_for(s, event).contains(SessionAction::Register) <==> (s.phase != Phase::Running
            && next_phase(s, event) == Phase::Running),
        actions_for(s, event).contains(SessionAction::Register) ==> actions_for(s, event)
            == seq![SessionAction::<R>::Register],
        s.phase is Starting && next_phase(s, event) == Phase::Terminated ==> exists|
            failure: SessionFailure,
        |
            actions_for(s, event) == seq![SessionAction::<R>::EmitError(failure)],
{
    let a = actions_for(s, event);
    if s.phase != Phase::Running && next_phase(s, event) == Phase::Running {
        assert(a[0] == SessionAction::<R>::Register);
    }
    if a.contains(SessionAction::Register) {
        let i = choose|i: int| 0 <= i < a.len() && a[i] == SessionAction::<R>::Register;
        assert(a[i] == SessionAction::<R>::Register);
        assert(a =~= seq![SessionAction::<R>::Register]);
    }
    if s.phase is Starting && next_phase(s, event) == Phase::Terminated {
        assert(a.len() == 1);
        let failure = a[0]->EmitError_0;
        assert(a =~= seq![SessionAction::<R>::EmitError(failure)]);
    }
}

/// However a running session ends while it still owns its identifier, the
/// last thing it asks for is its teardown: a terminal closes its channel,
/// disconnects the transport, removes its registry entry and reports the
/// exit, in that order; the other kinds disconnect and remove their registry
/// entry.
pub proof fn law_running_session_ends_with_teardown<R>(s: Session, event: SessionEvent<R>)
    requires
        s.phase == Phase::Running,
        next_phase(s, event) == Phase::Terminated,
        !(event is Displaced),
        !(event is RegisterRefused),
    ensures
        actions_for(s, event).len() >= teardown::<R>(s.kind).len(),
        actions_for(s, event).skip(actions_for(s, event).len() - teardown::<R>(s.kind).len())
            == teardown::<R>(s.kind),
        actions_for(s, event).contains(SessionAction::Unregister),
{
    let a = actions_for(s, event);
    let t = teardown::<R>(s.kind);
    assert(a.skip(a.len() - t.len()) =~= t);
    if s.kind == SessionKind::Interactive {
        assert(a[a.len() - 2] == SessionAction::<R>::Unregister);
    } else {
        assert(a[a.len() - 1] == SessionAction::<R>::Unregister);
    }
}

/// A session that the registry refused ends without touching the entry and
/// the display of the session that holds the identifier: it reports the
/// refusal, closes what it opened and disconnects, and neither removes a
/// registry entry nor reports an exit.
pub proof fn law_refused_session_ends_quietly<R>(s: Session)
    requires
        s.phase == Phase::Running,
    ensures
        next_phase(s, SessionEvent::<R>::RegisterRefused) == Phase::Terminated,
        actions_for(s, SessionEvent::<R>::RegisterRefused) == seq![
            SessionAction::<R>::EmitError(SessionFailure::IdentifierTaken),
        ] + quiet_teardown::<R>(s.kind),
        !actions_for(s, SessionEvent::<R>::RegisterRefused).contains(SessionAction::Unregister),
        !actions_for(s, SessionEvent::<R>::RegisterRefused).contains(SessionAction::EmitExited),
{
}

/// A session whose identifier has passed to another one ends without
/// touching what now belongs to the other: it neither removes the registry
/// entry nor reports an exit, and it still disconnects.
pub proof fn law_displaced_session_ends_quietly<R>(s: Session)
    requires
        s.phase == Phase::Running,
    ensures
        next_phase(s, SessionEvent::<R>::Displaced) == Phase::Terminated,
        !actions_for(s, SessionEvent::<R>::Displaced).contains(SessionAction::Unregister),
        !actions_for(s, SessionEvent::<R>::Displaced).contains(SessionAction::EmitExited),
        actions_for(s, SessionEvent::<R>::Displaced).contains(SessionAction::Disconnect),
{
    let a = actions_for(s, SessionEvent::<R>::Displaced);
    assert(a[a.len() - 1] == SessionAction::<R>::Disconnect);
}

} // verus!
