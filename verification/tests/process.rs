use narrowd::config::{ExecMode, Platform};
use narrowd::env::EnvTable;
use narrowd::executor::{
    check_hello, executor_args, frame_length, frame_message, interpret_response, request_id,
    sort_fds, ClientError, ControlError, Delivery, ExecutorAction, ExecutorClient, ExecutorHello,
    ExecutorRequest, ExecutorResponse, ExecutorState, FrameError, HeaderRead, RequestKind,
    ResponseDetail, MAX_SESSION_MESSAGE_SIZE,
};
use narrowd::process::{
    channel_input, clamp_dimension, exit_status_code, launch_plan, map_signal,
    piped_step, pty_control, pty_size, read_step, send_signal_to_pid,
    send_signal_to_process_group, ChannelInput, ExecutorSignal, OutputPump, PipedStep,
    ProcessInput, ProcessOutput, ProcessRequest, ProcessStream, PtyControl, PtyKeeper, PtyStep,
    PumpKind, ReadOutcome, ReadStep, SerializablePtySize, SignalError,
};
use nix::sys::signal::Signal;
use russh::Sig;

#[test]
fn rejects_child_pids_that_do_not_fit_i32() {
    let err =
        send_signal_to_pid(i32::MAX as u32 + 1, Signal::SIGTERM, |_, _| true).unwrap_err();
    assert!(err.message().contains("child pid too large"));
}

#[test]
fn signals_reach_the_process_or_its_group() {
    send_signal_to_pid(42, Signal::SIGHUP, |pid, signal| {
        pid == 42 && signal == Signal::SIGHUP
    })
    .unwrap();
    assert_eq!(
        send_signal_to_pid(42, Signal::SIGHUP, |_, _| false).unwrap_err(),
        SignalError::ChildNotSignalled
    );
    send_signal_to_process_group(7, Signal::SIGINT, |group, signal| {
        group == 7 && signal == Signal::SIGINT
    })
    .unwrap();
    assert_eq!(
        send_signal_to_process_group(7, Signal::SIGINT, |_, _| false).unwrap_err(),
        SignalError::GroupNotSignalled
    );
}

#[test]
fn rejects_control_messages_with_multiple_attached_fds() {
    let sorted = sort_fds(10, vec![4, 5]);
    match sorted.attached {
        Ok(_) => panic!("control message with multiple attached fds unexpectedly succeeded"),
        Err(err) => assert!(err.message().contains("more than one attached fd")),
    }
    assert_eq!(sorted.close, vec![4, 5]);
}

#[test]
fn one_fd_is_kept() {
    let sorted = sort_fds(10, vec![4]);
    assert_eq!(sorted.attached, Ok(Some(4)));
    assert!(sorted.close.is_empty());
    assert_eq!(sort_fds(10, vec![]).attached, Ok(None));
    let sorted = sort_fds(0, vec![4]);
    assert_eq!(sorted.attached, Err(ControlError::Eof));
    assert_eq!(sorted.close, vec![4]);
}

#[test]
fn known_signals_are_mapped() {
    assert_eq!(map_signal(&Sig::TERM), Some(ExecutorSignal::Term));
    assert_eq!(map_signal(&Sig::USR1), Some(ExecutorSignal::Usr1));
    assert_eq!(map_signal(&Sig::Custom("WINCH".to_string())), None);
    assert_eq!(ExecutorSignal::Kill.to_signal(), Signal::SIGKILL);
    assert_eq!(ExecutorSignal::Alrm.to_signal(), Signal::SIGALRM);
}

#[test]
fn sizes_are_clamped() {
    assert_eq!(clamp_dimension(80), 80);
    assert_eq!(clamp_dimension(70_000), u16::MAX);
    assert_eq!(
        pty_size(80, 24, 70_000, 1),
        SerializablePtySize {
            rows: 24,
            cols: 80,
            pixel_width: u16::MAX,
            pixel_height: 1
        }
    );
}

#[test]
fn commands_are_handed_to_the_shell() {
    let plan = launch_plan(
        "/bin/bash",
        "/home/u",
        EnvTable::new(),
        "-lc",
        Some("ls -l".to_string()),
    );
    assert_eq!(plan.program, "/bin/bash");
    assert_eq!(plan.args, vec!["-lc".to_string(), "ls -l".to_string()]);
    assert_eq!(plan.cwd, "/home/u");
    assert!(launch_plan("/bin/sh", "/", EnvTable::new(), "-c", None)
        .args
        .is_empty());
}

#[test]
fn exit_status_is_sent_when_all_output_is_out() {
    let mut pump = OutputPump::new(PumpKind::ChannelPiped, Platform::Unix);
    assert!(pump.awaits_output() && pump.awaits_exit());
    let out = pump.on_output(Some(ProcessOutput::Stdout(vec![1])));
    assert_eq!(out, Some(ProcessOutput::Stdout(vec![1])));
    assert!(!pump.on_exit(Some(3)));
    assert!(!pump.finished());
    assert_eq!(pump.on_output(None), None);
    assert!(pump.finished());
    assert_eq!(pump.last_message(), Some(ProcessOutput::ExitStatus(3)));
    assert!(!pump.awaits_output() && !pump.awaits_exit());
}

#[test]
fn a_windows_terminal_is_done_with_its_process() {
    let mut pump = OutputPump::new(PumpKind::ServicePty, Platform::Windows);
    assert!(pump.on_exit(None));
    assert!(pump.finished());
    assert_eq!(pump.last_message(), Some(ProcessOutput::ExitStatus(255)));

    let mut pump = OutputPump::new(PumpKind::ServicePty, Platform::Unix);
    assert!(pump.on_exit(None));
    assert!(!pump.finished());
}

#[test]
fn a_lost_session_ends_a_piped_process() {
    let mut pump = OutputPump::new(PumpKind::ServicePiped, Platform::Unix);
    assert!(pump.on_send_failed());
    assert!(pump.finished());
    assert_eq!(pump.last_message(), None);
    let mut pump = OutputPump::new(PumpKind::ChannelPty, Platform::Unix);
    assert!(!pump.on_send_failed());
}

#[test]
fn channel_messages_become_input() {
    assert_eq!(
        channel_input(ChannelInput::Data(vec![7])),
        Some(ProcessInput::Data(vec![7]))
    );
    assert_eq!(
        channel_input(ChannelInput::Signal(Sig::INT)),
        Some(ProcessInput::Signal(ExecutorSignal::Int))
    );
    assert_eq!(
        channel_input(ChannelInput::WindowChange {
            col_width: 1,
            row_height: 2,
            pix_width: 3,
            pix_height: 4
        }),
        Some(ProcessInput::Resize(SerializablePtySize {
            rows: 2,
            cols: 1,
            pixel_width: 3,
            pixel_height: 4
        }))
    );
    assert_eq!(channel_input(ChannelInput::Other), None);
    assert_eq!(pty_control(ProcessInput::Close), (PtyControl::Close, true));
    assert_eq!(pty_control(ProcessInput::Eof), (PtyControl::Eof, false));
}

#[test]
fn pipes_take_data_and_signals() {
    assert_eq!(
        piped_step(ProcessInput::Data(vec![1]), Platform::Unix),
        PipedStep::Write(vec![1])
    );
    let hup = ProcessInput::Signal(ExecutorSignal::Hup);
    assert_eq!(
        piped_step(hup, Platform::Unix),
        PipedStep::Signal(ExecutorSignal::Hup)
    );
    let hup = ProcessInput::Signal(ExecutorSignal::Hup);
    assert_eq!(piped_step(hup, Platform::Windows), PipedStep::Nothing);
    assert_eq!(
        piped_step(ProcessInput::Eof, Platform::Unix),
        PipedStep::CloseStdin
    );
    assert_eq!(piped_step(ProcessInput::Close, Platform::Unix), PipedStep::Kill);
}

#[test]
fn nothing_is_written_behind_the_end() {
    let mut keeper = PtyKeeper::new(Platform::Unix, Some(9));
    assert_eq!(
        keeper.order(PtyControl::Write(vec![1])),
        PtyStep::Write(vec![1])
    );
    assert_eq!(
        keeper.order(PtyControl::Signal(ExecutorSignal::Quit)),
        PtyStep::SignalGroup(9, ExecutorSignal::Quit)
    );
    assert_eq!(keeper.order(PtyControl::Eof), PtyStep::DropWriter);
    assert_eq!(keeper.order(PtyControl::Write(vec![2])), PtyStep::Nothing);
    assert_eq!(keeper.order(PtyControl::Close), PtyStep::Kill);
    assert!(keeper.done());
    assert_eq!(keeper.order(PtyControl::Eof), PtyStep::Nothing);

    let mut keeper = PtyKeeper::new(Platform::Unix, None);
    assert_eq!(
        keeper.order(PtyControl::Signal(ExecutorSignal::Quit)),
        PtyStep::Nothing
    );
    keeper.write_failed();
    assert!(keeper.done());
}

#[test]
fn reads_become_output() {
    let buffer = vec![1, 2, 3, 4];
    assert_eq!(
        read_step(&buffer, ReadOutcome::Read(2), ProcessStream::Stderr, false),
        ReadStep::Pass(ProcessOutput::Stderr(vec![1, 2]))
    );
    assert_eq!(
        read_step(&buffer, ReadOutcome::Read(0), ProcessStream::Stdout, false),
        ReadStep::Stop
    );
    assert_eq!(
        read_step(&buffer, ReadOutcome::Interrupted, ProcessStream::Stdout, true),
        ReadStep::Again
    );
    assert_eq!(
        read_step(&buffer, ReadOutcome::Failed, ProcessStream::Stdout, true),
        ReadStep::Stop
    );
}

#[test]
fn statuses_tell_codes_and_signals() {
    assert_eq!(exit_status_code(Some(3), None), 3);
    assert_eq!(exit_status_code(None, Some(9)), 137);
    assert_eq!(exit_status_code(None, None), 255);
}

#[test]
fn frames_read_back() {
    let frame = frame_message(&vec![9, 8, 7]).unwrap();
    assert_eq!(frame, vec![0, 0, 0, 3, 9, 8, 7]);
    assert_eq!(
        frame_length(HeaderRead::Bytes(frame[0], frame[1], frame[2], frame[3])),
        Ok(Some(3))
    );
    assert_eq!(frame_length(HeaderRead::Eof), Ok(None));
    assert_eq!(
        frame_length(HeaderRead::Failed),
        Err(FrameError::LengthUnreadable)
    );
    assert_eq!(
        frame_length(HeaderRead::Bytes(0, 16, 0, 1)),
        Err(FrameError::TooLong {
            length: MAX_SESSION_MESSAGE_SIZE + 1
        })
    );
    assert_eq!(frame_length(HeaderRead::Bytes(0, 16, 0, 0)), Ok(Some(1_048_576)));
    assert_eq!(
        executor_args(),
        vec![
            "--internal-executor".to_string(),
            "--control-fd".to_string(),
            "3".to_string()
        ]
    );
}

fn hello() -> ExecutorRequest {
    ExecutorRequest::Hello(ExecutorHello {
        home_dir: "/tmp".to_string(),
        shell: "/bin/bash".to_string(),
        exec_mode: ExecMode::ShellLogin,
    })
}

fn process(command: &str) -> ProcessRequest {
    ProcessRequest {
        pty: None,
        env: EnvTable::new(),
        command: Some(command.to_string()),
    }
}

#[test]
fn nothing_starts_before_the_handshake() {
    let mut executor = ExecutorState::new();
    let action = executor.handle(
        ExecutorRequest::StartProcess {
            request_id: 5,
            request: process("true"),
        },
        true,
    );
    match action {
        ExecutorAction::Respond(ExecutorResponse::RequestErr { request_id, message }) => {
            assert_eq!(request_id, 5);
            assert_eq!(
                message,
                "executor received a request before startup completed"
            );
        }
        other => panic!("unexpected action {other:?}"),
    }
}

#[test]
fn processes_start_after_the_handshake() {
    let mut executor = ExecutorState::new();
    let ack = match executor.handle(hello(), false) {
        ExecutorAction::Respond(response) => response,
        other => panic!("unexpected action {other:?}"),
    };
    check_hello(&ack).unwrap();

    let request = ExecutorRequest::StartProcess {
        request_id: 5,
        request: process("echo ok"),
    };
    match executor.handle(request, true) {
        ExecutorAction::StartProcess {
            request_id,
            pty,
            plan,
        } => {
            assert_eq!(request_id, 5);
            assert!(pty.is_none());
            assert_eq!(plan.args, vec!["-lc".to_string(), "echo ok".to_string()]);
        }
        other => panic!("unexpected action {other:?}"),
    }
    let action = executor.handle(ExecutorRequest::StartSftp { request_id: 6 }, false);
    assert!(matches!(
        action,
        ExecutorAction::Respond(ExecutorResponse::RequestErr { request_id: 6, .. })
    ));
    let action = executor.handle(ExecutorRequest::StartSftp { request_id: 7 }, true);
    match action {
        ExecutorAction::StartSftp { request_id, root } => {
            assert_eq!((request_id, root.as_str()), (7, "/tmp"));
        }
        other => panic!("unexpected action {other:?}"),
    }
}

#[test]
fn forwards_are_cancelled_by_token() {
    let mut executor = ExecutorState::new();
    assert!(!executor.forward_bound(4));
    assert!(executor.forward_bound(4));
    let cancel = |request_id| ExecutorRequest::CancelRemoteForward {
        request_id,
        token: 4,
    };
    assert!(matches!(
        executor.handle(cancel(1), false),
        ExecutorAction::StopForward {
            request_id: 1,
            token: 4
        }
    ));
    match executor.handle(cancel(2), false) {
        ExecutorAction::Respond(ExecutorResponse::RequestErr { message, .. }) => {
            assert_eq!(message, "unknown remote-forward token 4");
        }
        other => panic!("unexpected action {other:?}"),
    }
}

#[test]
fn answers_find_their_request() {
    let mut client = ExecutorClient::new();
    let request = client.connect_tcp("localhost".to_string(), 80);
    let id = client.begin(&request).unwrap();
    assert_eq!(request_id(&request), Some(id));
    let other = client.start_sftp();
    assert_ne!(client.begin(&other).unwrap(), id);

    let answer = ExecutorState::finish(id, Ok(ResponseDetail::Empty));
    match client.on_response(answer, false) {
        Delivery::Answer {
            request_id,
            response,
        } => {
            assert_eq!(request_id, id);
            assert_eq!(
                interpret_response(RequestKind::DirectTcpip, response, "shown").unwrap(),
                None
            );
        }
        other => panic!("unexpected delivery {other:?}"),
    }
    let late = ExecutorState::finish(id, Ok(ResponseDetail::Empty));
    assert!(matches!(client.on_response(late, false), Delivery::Unclaimed));
    assert!(matches!(
        client.begin(&hello()).unwrap_err(),
        ClientError::NoRequestId
    ));
}

#[test]
fn forwarded_connections_find_their_client() {
    let mut client = ExecutorClient::new();
    let request = client.start_remote_forward("127.0.0.1".to_string(), 0);
    let token = match &request {
        ExecutorRequest::StartRemoteForward { token, .. } => *token,
        other => panic!("unexpected request {other:?}"),
    };
    let started = client.forward_started(token, 3, "localhost".to_string(), 8080);
    assert_eq!(started.token, token);
    assert_eq!(started.bound_port, 8080);
    let found = client.registration(token).unwrap();
    assert_eq!(found.session, 3);
    assert_eq!(found.connected_address, "localhost");
    assert_eq!(found.connected_port, 8080);

    let incoming = |attached: bool, client: &mut ExecutorClient| {
        client.on_response(
            ExecutorResponse::RemoteForwardIncoming {
                token,
                originator_address: "1.2.3.4".to_string(),
                originator_port: 5,
            },
            attached,
        )
    };
    assert!(matches!(
        incoming(true, &mut client),
        Delivery::Incoming { originator_port: 5, .. }
    ));
    assert!(matches!(
        incoming(false, &mut client),
        Delivery::MissingSocket { .. }
    ));
    client.forward_cancelled(token);
    assert!(matches!(
        client.registration(token).unwrap_err(),
        ClientError::UnknownToken { .. }
    ));
}

#[test]
fn refusals_and_surprises_are_told_apart() {
    let refused = ExecutorState::finish(1, Err("no such shell".to_string()));
    assert_eq!(
        interpret_response(RequestKind::Process, refused, "shown")
            .unwrap_err()
            .message(),
        "executor failed to start process session: no such shell"
    );
    let empty = ExecutorState::finish(1, Ok(ResponseDetail::Empty));
    assert_eq!(
        interpret_response(RequestKind::RemoteForward, empty, "RequestOk")
            .unwrap_err()
            .message(),
        "unexpected executor response to remote-forward request: RequestOk"
    );
    let bound = ExecutorState::finish(1, Ok(ResponseDetail::BoundPort(99)));
    assert_eq!(
        interpret_response(RequestKind::RemoteForward, bound, "").unwrap(),
        Some(99)
    );
    assert!(matches!(
        check_hello(&ExecutorState::finish(1, Ok(ResponseDetail::Empty))).unwrap_err(),
        ClientError::NoHelloAck
    ));
}
