use termlink_core::error::CoreError;
use termlink_core::session::{
    ChannelEvent, ControlMessage, Phase, Session, SessionAction, SessionEvent, SessionFailure,
    SessionKind, StartupStep,
};

type Event = SessionEvent<u32>;
type Action = SessionAction<u32>;

fn running_terminal() -> Session {
    let mut s = Session::new(SessionKind::Interactive, 80, 24, true);
    let events: Vec<Event> = vec![
        Event::Start,
        Event::StepOk,
        Event::StepOk,
        Event::StepOk,
        Event::StepOk,
        Event::StepOk,
    ];
    s.run(events);
    assert!(s.is_running());
    s
}

fn teardown() -> Vec<Action> {
    vec![Action::CloseChannel, Action::Disconnect, Action::Unregister, Action::EmitExited]
}

#[test]
fn terminal_startup_runs_the_five_steps_then_registers() {
    let mut s = Session::new(SessionKind::Interactive, 120, 40, true);
    assert_eq!(s.step::<u32>(Event::Start), vec![Action::OpenTransport]);
    assert_eq!(s.phase, Phase::Starting(StartupStep::OpenTransport));
    assert_eq!(s.step::<u32>(Event::StepOk), vec![Action::Authenticate]);
    assert_eq!(s.step::<u32>(Event::StepOk), vec![Action::OpenChannel]);
    assert_eq!(s.step::<u32>(Event::StepOk), vec![Action::RequestPty { cols: 120, rows: 40 }]);
    assert_eq!(s.step::<u32>(Event::StepOk), vec![Action::RequestShell]);
    assert!(!s.is_running());
    assert_eq!(s.step::<u32>(Event::StepOk), vec![Action::Register]);
    assert!(s.is_running());
}

#[test]
fn file_transfer_startup_requests_the_subsystem() {
    let mut s = Session::new(SessionKind::FileTransfer, 0, 0, true);
    let events: Vec<Event> =
        vec![Event::Start, Event::StepOk, Event::StepOk, Event::StepOk, Event::StepOk, Event::StepOk];
    assert_eq!(
        s.run(events),
        vec![
            Action::OpenTransport,
            Action::Authenticate,
            Action::OpenChannel,
            Action::RequestSubsystem,
            Action::OpenFileTransfer,
            Action::Register,
        ]
    );
    assert!(s.is_running());
}

#[test]
fn monitoring_startup_registers_after_authentication() {
    let mut s = Session::new(SessionKind::Monitoring, 0, 0, true);
    let events: Vec<Event> = vec![Event::Start, Event::StepOk, Event::StepOk];
    assert_eq!(s.run(events), vec![Action::OpenTransport, Action::Authenticate, Action::Register]);
    assert!(s.is_running());
}

#[test]
fn failed_connect_reports_and_never_registers() {
    let mut s = Session::new(SessionKind::Interactive, 80, 24, true);
    s.step::<u32>(Event::Start);
    let actions = s.step::<u32>(Event::StepFailed("refused".to_string()));
    assert_eq!(
        actions,
        vec![Action::EmitError(SessionFailure::Startup {
            step: StartupStep::OpenTransport,
            message: "refused".to_string(),
        })]
    );
    assert!(s.is_terminated());
    assert_eq!(s.step::<u32>(Event::StepOk), Vec::<Action>::new());
    assert!(s.is_terminated());
}

#[test]
fn failure_at_each_later_step_names_the_step() {
    let steps = [
        StartupStep::OpenTransport,
        StartupStep::Authenticate,
        StartupStep::OpenChannel,
        StartupStep::RequestPty,
        StartupStep::RequestShell,
    ];
    for (passed, step) in steps.iter().enumerate() {
        let mut s = Session::new(SessionKind::Interactive, 80, 24, true);
        s.step::<u32>(Event::Start);
        for _ in 0..passed {
            s.step::<u32>(Event::StepOk);
        }
        let actions = s.step::<u32>(Event::StepFailed("boom".to_string()));
        assert_eq!(
            actions,
            vec![Action::EmitError(SessionFailure::Startup {
                step: *step,
                message: "boom".to_string(),
            })]
        );
        assert!(s.is_terminated());
    }
}

#[test]
fn refused_password_ends_the_startup() {
    let mut s = Session::new(SessionKind::Interactive, 80, 24, true);
    s.step::<u32>(Event::Start);
    s.step::<u32>(Event::StepOk);
    assert_eq!(
        s.step::<u32>(Event::AuthRefused),
        vec![Action::EmitError(SessionFailure::AuthRejected)]
    );
    assert!(s.is_terminated());
}

#[test]
fn missing_password_ends_the_startup_once_connected() {
    let mut s = Session::new(SessionKind::Interactive, 80, 24, false);
    assert_eq!(s.step::<u32>(Event::Start), vec![Action::OpenTransport]);
    assert_eq!(
        s.step::<u32>(Event::StepOk),
        vec![Action::EmitError(SessionFailure::AuthUnsupported)]
    );
    assert!(s.is_terminated());
}

#[test]
fn write_then_remote_output_is_forwarded_once_and_in_order() {
    let mut s = running_terminal();
    let events: Vec<Event> = vec![
        Event::Control(ControlMessage::Write(b"ls\n".to_vec())),
        Event::Control(ControlMessage::Exec { command: "uptime".to_string(), reply: 9 }),
        Event::Remote(ChannelEvent::Data(b"ls\nfile.txt\n".to_vec())),
    ];
    let actions = s.run(events);
    assert_eq!(
        actions,
        vec![
            Action::SendData(b"ls\n".to_vec()),
            Action::SpawnExec { command: "uptime".to_string(), reply: 9 },
            Action::EmitOutput(b"ls\nfile.txt\n".to_vec()),
        ]
    );
    let outputs: Vec<&Action> =
        actions.iter().filter(|a| matches!(a, Action::EmitOutput(_))).collect();
    assert_eq!(outputs.len(), 1);
    assert!(s.is_running());
}

#[test]
fn remote_output_keeps_its_order_around_execs() {
    let mut s = running_terminal();
    let events: Vec<Event> = vec![
        Event::Remote(ChannelEvent::Data(b"one".to_vec())),
        Event::Control(ControlMessage::Exec { command: "a".to_string(), reply: 1 }),
        Event::Remote(ChannelEvent::Data(b"two".to_vec())),
        Event::Remote(ChannelEvent::Other),
        Event::Control(ControlMessage::Exec { command: "b".to_string(), reply: 2 }),
        Event::Remote(ChannelEvent::Data(b"three".to_vec())),
    ];
    let actions = s.run(events);
    let outputs: Vec<Vec<u8>> = actions
        .iter()
        .filter_map(|a| match a {
            Action::EmitOutput(bytes) => Some(bytes.clone()),
            _ => None,
        })
        .collect();
    assert_eq!(outputs, vec![b"one".to_vec(), b"two".to_vec(), b"three".to_vec()]);
}

#[test]
fn write_sends_the_bytes_without_newline_translation() {
    let mut s = running_terminal();
    let actions = s.step::<u32>(Event::Control(ControlMessage::Write(b"a\r\nb\n".to_vec())));
    assert_eq!(actions, vec![Action::SendData(b"a\r\nb\n".to_vec())]);
}

#[test]
fn resize_asks_for_a_window_change_and_its_failure_is_not_fatal() {
    let mut s = running_terminal();
    let actions = s.step::<u32>(Event::Control(ControlMessage::Resize { cols: 100, rows: 30 }));
    assert_eq!(actions, vec![Action::ChangeWindow { cols: 100, rows: 30 }]);
    let actions = s.step::<u32>(Event::WindowChangeFailed("no".to_string()));
    assert_eq!(actions, Vec::<Action>::new());
    assert!(s.is_running());
}

#[test]
fn close_message_tears_the_session_down() {
    let mut s = running_terminal();
    assert_eq!(s.step::<u32>(Event::Control(ControlMessage::Close)), teardown());
    assert!(s.is_terminated());
}

#[test]
fn end_of_remote_stream_tears_the_session_down() {
    for remote in [ChannelEvent::Eof, ChannelEvent::Close] {
        let mut s = running_terminal();
        assert_eq!(s.step::<u32>(Event::Remote(remote)), teardown());
        assert!(s.is_terminated());
    }
}

#[test]
fn exit_status_alone_does_not_end_a_terminal() {
    let mut s = running_terminal();
    assert_eq!(s.step::<u32>(Event::Remote(ChannelEvent::ExitStatus(0))), Vec::<Action>::new());
    assert!(s.is_running());
    assert_eq!(s.step::<u32>(Event::Remote(ChannelEvent::Eof)), teardown());
}

#[test]
fn session_on_a_taken_identifier_opens_nothing_before_the_earlier_one_is_gone() {
    let mut s = Session::new(SessionKind::Interactive, 80, 24, true);
    assert_eq!(s.start::<u32>(true), vec![Action::RetirePredecessor]);
    assert_eq!(s.phase, Phase::Replacing);
    for event in [
        Event::Start,
        Event::StepOk,
        Event::Remote(ChannelEvent::Data(b"x".to_vec())),
        Event::Control(ControlMessage::Write(b"x".to_vec())),
        Event::SourcesExhausted,
        Event::Displaced,
    ] {
        assert_eq!(s.step::<u32>(event), Vec::<Action>::new());
        assert_eq!(s.phase, Phase::Replacing);
    }
    assert_eq!(s.step::<u32>(Event::PredecessorGone), vec![Action::OpenTransport]);
    assert_eq!(s.phase, Phase::Starting(StartupStep::OpenTransport));
    assert_eq!(s.step::<u32>(Event::StepOk), vec![Action::Authenticate]);
}

#[test]
fn plain_start_is_the_start_on_a_free_identifier() {
    let mut s = Session::new(SessionKind::Monitoring, 0, 0, true);
    assert_eq!(s.start::<u32>(false), vec![Action::OpenTransport]);
    let mut t = Session::new(SessionKind::Monitoring, 0, 0, true);
    assert_eq!(t.step::<u32>(Event::StartReplacing), vec![Action::RetirePredecessor]);
    assert_eq!(t.step::<u32>(Event::PredecessorGone), vec![Action::OpenTransport]);
    assert_eq!(s, t);
}

#[test]
fn predecessor_gone_means_nothing_to_a_session_that_replaces_none() {
    let mut s = running_terminal();
    assert_eq!(s.step::<u32>(Event::PredecessorGone), Vec::<Action>::new());
    assert!(s.is_running());
}

#[test]
fn session_that_the_registry_refused_reports_it_and_ends_quietly() {
    let mut s = running_terminal();
    assert_eq!(
        s.step::<u32>(Event::RegisterRefused),
        vec![
            Action::EmitError(SessionFailure::IdentifierTaken),
            Action::CloseChannel,
            Action::Disconnect,
        ]
    );
    assert!(s.is_terminated());
    let mut m = Session::new(SessionKind::Monitoring, 0, 0, true);
    m.run::<u32>(vec![Event::Start, Event::StepOk, Event::StepOk]);
    assert_eq!(
        m.step::<u32>(Event::RegisterRefused),
        vec![Action::EmitError(SessionFailure::IdentifierTaken), Action::Disconnect]
    );
}

#[test]
fn exhausted_sources_tear_the_session_down() {
    let mut s = running_terminal();
    assert_eq!(s.step::<u32>(Event::SourcesExhausted), teardown());
    assert!(s.is_terminated());
}

#[test]
fn failed_send_reports_the_error_and_tears_down() {
    let mut s = running_terminal();
    let actions = s.step::<u32>(Event::SendFailed("broken pipe".to_string()));
    let mut expected = vec![Action::EmitError(SessionFailure::Send("broken pipe".to_string()))];
    expected.extend(teardown());
    assert_eq!(actions, expected);
    assert!(s.is_terminated());
}

#[test]
fn terminated_session_drops_everything_but_rejects_an_exec() {
    let mut s = running_terminal();
    s.step::<u32>(Event::Control(ControlMessage::Close));
    assert_eq!(
        s.step::<u32>(Event::Control(ControlMessage::Write(b"x".to_vec()))),
        Vec::<Action>::new()
    );
    assert_eq!(
        s.step::<u32>(Event::Remote(ChannelEvent::Data(b"late".to_vec()))),
        Vec::<Action>::new()
    );
    assert_eq!(
        s.step::<u32>(Event::Control(ControlMessage::Exec { command: "id".to_string(), reply: 4 })),
        vec![Action::RejectExec { reply: 4 }]
    );
    assert!(s.is_terminated());
}

#[test]
fn monitoring_session_runs_execs_and_ignores_terminal_traffic() {
    let mut s = Session::new(SessionKind::Monitoring, 0, 0, true);
    let start: Vec<Event> = vec![Event::Start, Event::StepOk, Event::StepOk];
    s.run(start);
    assert_eq!(
        s.step::<u32>(Event::Control(ControlMessage::Exec { command: "df".to_string(), reply: 1 })),
        vec![Action::SpawnExec { command: "df".to_string(), reply: 1 }]
    );
    assert_eq!(
        s.step::<u32>(Event::Control(ControlMessage::Write(b"x".to_vec()))),
        Vec::<Action>::new()
    );
    assert_eq!(s.step::<u32>(Event::Remote(ChannelEvent::Eof)), Vec::<Action>::new());
    assert!(s.is_running());
    assert_eq!(
        s.step::<u32>(Event::Control(ControlMessage::Close)),
        vec![Action::Disconnect, Action::Unregister]
    );
    assert!(s.is_terminated());
}

#[test]
fn displaced_session_ends_without_touching_registry_or_display() {
    let mut s = running_terminal();
    assert_eq!(
        s.step::<u32>(Event::Displaced),
        vec![Action::CloseChannel, Action::Disconnect]
    );
    assert!(s.is_terminated());
    let mut m = Session::new(SessionKind::Monitoring, 0, 0, true);
    let start: Vec<Event> = vec![Event::Start, Event::StepOk, Event::StepOk];
    m.run(start);
    assert_eq!(m.step::<u32>(Event::Displaced), vec![Action::Disconnect]);
    let mut idle = Session::new(SessionKind::Interactive, 80, 24, true);
    assert_eq!(idle.step::<u32>(Event::Displaced), Vec::<Action>::new());
    assert!(!idle.is_terminated());
}

#[test]
fn run_gives_the_actions_of_each_step_in_order() {
    let events = || -> Vec<Event> {
        vec![
            Event::Start,
            Event::StepOk,
            Event::StepOk,
            Event::StepOk,
            Event::StepOk,
            Event::StepOk,
            Event::Remote(ChannelEvent::Data(b"$ ".to_vec())),
            Event::Control(ControlMessage::Write(b"exit\n".to_vec())),
            Event::Remote(ChannelEvent::Eof),
            Event::Remote(ChannelEvent::Data(b"late".to_vec())),
        ]
    };
    let mut whole = Session::new(SessionKind::Interactive, 80, 24, true);
    let at_once = whole.run(events());
    let mut stepped = Session::new(SessionKind::Interactive, 80, 24, true);
    let mut one_by_one: Vec<Action> = Vec::new();
    for event in events() {
        one_by_one.extend(stepped.step(event));
    }
    assert_eq!(at_once, one_by_one);
    assert_eq!(whole, stepped);
    assert!(whole.is_terminated());
}

#[test]
fn startup_failure_becomes_a_transport_error() {
    let failure =
        SessionFailure::Startup { step: StartupStep::OpenChannel, message: "denied".to_string() };
    assert_eq!(
        failure.into_error(),
        CoreError::Transport("opening the channel failed: denied".to_string())
    );
    assert_eq!(
        SessionFailure::AuthRejected.into_error(),
        CoreError::Transport("authentication failed: wrong user name or password".to_string())
    );
    assert_eq!(
        SessionFailure::AuthUnsupported.into_error(),
        CoreError::Transport("only password authentication is supported".to_string())
    );
    assert_eq!(
        SessionFailure::Send("eof".to_string()).into_error(),
        CoreError::Transport("sending to the remote shell failed: eof".to_string())
    );
    assert_eq!(
        SessionFailure::IdentifierTaken.into_error(),
        CoreError::Transport("another session holds this identifier".to_string())
    );
}
