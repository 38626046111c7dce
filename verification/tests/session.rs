use narrowd::authorized_keys::KeysFile;
use narrowd::config::{AppConfig, Platform};
use narrowd::env::EnvTable;
use narrowd::session::{
    build_child_env, channel_open_direct_tcpip, is_env_allowed, tcpip_forward, ClientHandler,
    DirectTcpip, ForwardPlan, HandlerError,
};
use narrowd::sshd::{AppState, BootstrapFacts, OfferedKey};
use narrowd::time::Instant;
use narrowd::windows_service_runtime::{
    dispatch, ControlAnswer, ControlHandler, DispatchError, ServiceAction, ServiceControl,
    ServiceExitCode, ServiceRun, ServiceState, ServiceStatus, WindowsServiceLaunchOptions,
};
use russh::keys::ssh_key::Algorithm;

fn config() -> AppConfig {
    AppConfig::defaults_for(Some("/home/uli".to_string()), None, Platform::Unix).unwrap()
}

fn state_with(config: AppConfig) -> AppState {
    let facts = BootstrapFacts {
        home_dir: Some("/home/uli".to_string()),
        daemon_username: "uli".to_string(),
        host_key_algorithm: Algorithm::Ed25519,
        keys_file: KeysFile::Opened {
            modified: None,
            len: 0,
            text: Some(String::new()),
        },
        keys_file_exists: true,
    };
    AppState::bootstrap(config, facts, Instant { nanos: 0 })
        .unwrap()
        .0
}

#[test]
fn only_some_variables_may_be_set() {
    for name in ["TERM", "COLORTERM", "LANG", "TZ", "LC_", "LC_ALL"] {
        assert!(is_env_allowed(name), "{name}");
    }
    for name in ["", "PATH", "LD_PRELOAD", "term", "LCX", "HOME", "TERM "] {
        assert!(!is_env_allowed(name), "{name}");
    }
}

#[test]
fn the_child_gets_the_accounts_variables() {
    let mut requested = EnvTable::new();
    requested.set("LANG", "de_DE.UTF-8");
    requested.set("PATH", "/evil");
    requested.set("TERM", "vt100");
    let env = build_child_env("/home/uli", "uli", "/bin/bash", &requested, Some("xterm"));
    assert_eq!(env.get("LANG"), Some("de_DE.UTF-8"));
    assert_eq!(env.get("PATH"), None);
    assert_eq!(env.get("TERM"), Some("vt100"));
    assert_eq!(env.get("HOME"), Some("/home/uli"));
    assert_eq!(env.get("USER"), Some("uli"));
    assert_eq!(env.get("LOGNAME"), Some("uli"));
    assert_eq!(env.get("SHELL"), Some("/bin/bash"));
    assert_eq!(env.entries().len(), 6);

    let bare = build_child_env("/h", "u", "/s", &EnvTable::new(), None);
    assert_eq!(bare.get("TERM"), None);
    assert_eq!(bare.entries().len(), 4);
}

#[test]
fn a_channel_starts_one_process() {
    let state = state_with(config());
    let mut handler = ClientHandler::new();
    handler.channel_open_session(3);
    assert_eq!(handler.env_request(3, "LC_ALL", "C"), Ok(true));
    assert_eq!(handler.env_request(3, "PATH", "/x"), Ok(false));
    assert_eq!(
        handler.pty_request(&state.config, 3, "xterm", 80, 70_000, 1, 2),
        Ok(true)
    );
    let request = handler.shell_request(&state, 3).unwrap();
    let pty = request.pty.unwrap();
    assert_eq!(pty.term, "xterm");
    assert_eq!((pty.size.cols, pty.size.rows), (80, u16::MAX));
    assert_eq!(request.env.get("LC_ALL"), Some("C"));
    assert_eq!(request.env.get("TERM"), Some("xterm"));
    assert_eq!(request.command, None);

    let err = handler.shell_request(&state, 3).unwrap_err();
    assert_eq!(err, HandlerError::UnknownChannel { channel: 3 });
    assert_eq!(err.message(), "unknown channel ChannelId(3)");
    assert!(handler.env_request(3, "TZ", "UTC").is_err());
}

#[test]
fn commands_are_text_even_where_they_are_not() {
    let state = state_with(config());
    let mut handler = ClientHandler::new();
    handler.channel_open_session(1);
    let request = handler
        .exec_request(&state, 1, &b"printf 'executor-ok\\n'".to_vec())
        .unwrap()
        .unwrap();
    assert_eq!(request.command.as_deref(), Some("printf 'executor-ok\\n'"));
    assert!(request.pty.is_none());
    handler.channel_open_session(2);
    let request = handler
        .exec_request(&state, 2, &vec![b'a', 0xff, b'b'])
        .unwrap()
        .unwrap();
    assert_eq!(request.command.as_deref(), Some("a\u{fffd}b"));
    handler.channel_open_session(3);
    let request = handler
        .command_request(&state, 3, "uptime".to_string())
        .unwrap()
        .unwrap();
    assert_eq!(request.command.as_deref(), Some("uptime"));
    assert!(handler
        .command_request(&state, 3, "uptime".to_string())
        .is_err());
}

#[test]
fn what_is_switched_off_is_refused() {
    let mut config = config();
    config.permit_tty = false;
    config.permit_exec = false;
    config.sftp_enabled = false;
    config.allow_tcp_forwarding = false;
    config.allow_remote_forwarding = false;
    let state = state_with(config);
    let mut handler = ClientHandler::new();
    handler.channel_open_session(1);
    assert_eq!(
        handler.pty_request(&state.config, 1, "xterm", 80, 24, 0, 0),
        Ok(false)
    );
    assert!(handler
        .exec_request(&state, 1, &b"ls".to_vec())
        .unwrap()
        .is_none());
    assert_eq!(handler.subsystem_request(&state.config, 1, "sftp"), Ok(false));
    assert_eq!(
        channel_open_direct_tcpip(&state.config, 80),
        DirectTcpip::Denied
    );
    assert!(matches!(
        tcpip_forward(&state.config, "", 70_000),
        Ok(ForwardPlan::Denied)
    ));
    assert!(handler.shell_request(&state, 1).is_ok());
}

#[test]
fn only_file_access_is_a_subsystem() {
    let config = config();
    let mut handler = ClientHandler::new();
    handler.channel_open_session(1);
    assert_eq!(handler.subsystem_request(&config, 1, "netconf"), Ok(false));
    assert_eq!(handler.subsystem_request(&config, 1, "sftp"), Ok(true));
    assert!(handler.subsystem_request(&config, 1, "sftp").is_err());
    handler.channel_open_session(2);
    handler.channel_close(2);
    assert!(handler.subsystem_request(&config, 2, "sftp").is_err());
}

#[test]
fn forwards_are_bound_and_taken_back() {
    let mut config = config();
    let bind = |config: &AppConfig, address: &str| match tcpip_forward(config, address, 8080) {
        Ok(ForwardPlan::Bind { host, port }) => {
            assert_eq!(port, 8080);
            host
        }
        other => panic!("unexpected plan {other:?}"),
    };
    assert_eq!(bind(&config, ""), "0.0.0.0");
    assert_eq!(bind(&config, "10.1.1.1"), "10.1.1.1");
    config.gateway_ports = false;
    assert_eq!(bind(&config, "10.1.1.1"), "127.0.0.1");
    let err = tcpip_forward(&config, "", 65_536).unwrap_err();
    assert_eq!(err.message(), "invalid tcpip-forward port");

    let mut handler = ClientHandler::new();
    assert_eq!(
        handler.forward_bound("", "0.0.0.0", 8080, 1).as_deref(),
        Some("0.0.0.0")
    );
    assert_eq!(handler.forward_bound("", "0.0.0.0", 8080, 2), None);
    assert_eq!(
        handler.forward_bound("h", "127.0.0.1", 8080, 3).as_deref(),
        Some("h")
    );
    assert_eq!(handler.open_forwards(), vec![1, 3]);
    assert_eq!(handler.cancel_tcpip_forward("", 8081), None);
    assert_eq!(handler.cancel_tcpip_forward("", 8080), Some(1));
    assert_eq!(handler.cancel_tcpip_forward("", 8080), None);
    assert!(handler.forward_bound("", "0.0.0.0", 8080, 4).is_some());
    assert_eq!(handler.open_forwards(), vec![3, 4]);
}

#[test]
fn connections_go_to_real_ports() {
    assert_eq!(
        channel_open_direct_tcpip(&config(), 65_535),
        DirectTcpip::Connect(65_535)
    );
    assert_eq!(
        channel_open_direct_tcpip(&config(), 65_536),
        DirectTcpip::InvalidPort
    );
}

#[test]
fn the_user_is_remembered_for_the_log() {
    let mut state = state_with(config());
    let mut handler = ClientHandler::new();
    assert_eq!(
        handler.auth_succeeded(&None),
        "session authenticated for requested user <unknown> from <unknown peer>"
    );
    let key = OfferedKey {
        algorithm: Algorithm::Ed25519,
        algorithm_shown: "Ed25519".to_string(),
        encoded: Some(vec![1]),
    };
    let answer = handler
        .authorize_key(&mut state, &None, "uli", &key, Instant { nanos: 5 })
        .unwrap();
    assert!(!answer.accepted);
    assert_eq!(
        handler.auth_succeeded(&None),
        "session authenticated for requested user uli from <unknown peer>"
    );
}

fn options() -> WindowsServiceLaunchOptions {
    WindowsServiceLaunchOptions {
        service_name: "narrowd".to_string(),
        config_path: Some("C:\\n.conf".to_string()),
        log_file: Some("C:\\logs\\n.log".to_string()),
    }
}

#[test]
fn a_service_is_dispatched_once() {
    let mut launch = None;
    assert!(matches!(
        ServiceRun::run_service(&launch),
        Err(DispatchError::MissingOptions)
    ));
    dispatch(&mut launch, options()).unwrap();
    let err = dispatch(&mut launch, options()).unwrap_err();
    assert_eq!(
        err.message(),
        "windows service launch options were already initialized"
    );
}

fn status(action: &ServiceAction) -> ServiceStatus {
    match action {
        ServiceAction::Report { status, .. } => *status,
        ServiceAction::Fail {
            report: Some(status),
            ..
        } => *status,
        other => panic!("no report in {other:?}"),
    }
}

#[test]
fn a_service_runs_to_its_end() {
    let (mut run, first) = ServiceRun::run_service(&Some(options())).unwrap();
    assert!(matches!(first, ServiceAction::Register));
    let starting = status(&run.succeeded());
    assert_eq!(starting.current_state, ServiceState::StartPending);
    assert_eq!(starting.wait_hint.secs, 30);
    match run.succeeded() {
        ServiceAction::LoadConfig { config_path } => {
            assert_eq!(config_path.as_deref(), Some("C:\\n.conf"));
        }
        other => panic!("unexpected action {other:?}"),
    }
    match run.succeeded() {
        ServiceAction::InitLogging { log_file } => {
            assert_eq!(log_file.as_deref(), Some("C:\\logs\\n.log"));
        }
        other => panic!("unexpected action {other:?}"),
    }
    let running = run.succeeded();
    assert!(status(&running).accepts_stop);
    match running {
        ServiceAction::Report { line, .. } => {
            assert_eq!(line.as_deref(), Some("service=narrowd event=start"));
        }
        other => panic!("unexpected action {other:?}"),
    }
    assert!(matches!(run.succeeded(), ServiceAction::PrepareRuntime));
    assert!(matches!(run.succeeded(), ServiceAction::Serve));
    let stopped = status(&run.succeeded());
    assert_eq!(stopped.current_state, ServiceState::Stopped);
    assert_eq!(stopped.exit_code, ServiceExitCode::NoError);
    assert!(matches!(run.succeeded(), ServiceAction::Succeed));
}

#[test]
fn a_service_that_fails_says_so() {
    let (mut run, _) = ServiceRun::run_service(&Some(options())).unwrap();
    run.succeeded();
    run.succeeded();
    let action = run.failed("bad line");
    assert_eq!(
        status(&action).exit_code,
        ServiceExitCode::ServiceSpecific(1)
    );
    match action {
        ServiceAction::Fail { note, error, .. } => {
            let note = note.unwrap();
            assert_eq!(note.path, "C:\\logs\\n.log");
            assert_eq!(note.directory.as_deref(), Some("C:\\logs"));
            assert_eq!(
                note.line,
                "narrowd bootstrap error: failed to load config for narrowd: bad line\n"
            );
            assert_eq!(error, "bad line");
        }
        other => panic!("unexpected action {other:?}"),
    }

    let (mut run, _) = ServiceRun::run_service(&Some(options())).unwrap();
    for _ in 0..6 {
        run.succeeded();
    }
    let action = run.failed("boom");
    assert_eq!(
        status(&action).exit_code,
        ServiceExitCode::ServiceSpecific(2)
    );
}

#[test]
fn the_daemon_is_told_to_stop_once() {
    let mut handler = ControlHandler::new();
    let step = handler.on_control(ServiceControl::Interrogate);
    assert_eq!(step.answer, ControlAnswer::NoError);
    assert!(!step.shut_down);
    let step = handler.on_control(ServiceControl::Stop);
    assert!(step.shut_down);
    let report = step.report.unwrap();
    assert_eq!(report.current_state, ServiceState::StopPending);
    assert_eq!(report.wait_hint.secs, 15);
    let step = handler.on_control(ServiceControl::Shutdown);
    assert!(!step.shut_down);
    assert!(step.report.is_some());
    assert_eq!(
        handler.on_control(ServiceControl::Other).answer,
        ControlAnswer::NotImplemented
    );
}
