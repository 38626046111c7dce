use narrowd::admission::{
    AdmissionConfig, AdmissionController, RejectReason, TokenReply, TokenRequest,
};
use narrowd::net::IpAddr;
use narrowd::preauth::{
    is_login_grace_timeout, is_preauth_timeout, poll_decision, rejection_notice, session_notice,
    setup_notice, Cause, ConnectionAction, ConnectionEvent, ConnectionStage,
    ConnectionSupervisor, PollDecision, PreauthContext, PreauthLimits, PreauthPhase,
    PreauthTimeout, PreauthWatch, SetupFailure,
};
use narrowd::time::{Duration, Instant};

fn at(millis: u64) -> Instant {
    Instant {
        nanos: millis * 1_000_000,
    }
}

fn limits() -> PreauthLimits {
    PreauthLimits {
        client_banner_timeout: Duration::from_millis(150),
        kex_start_timeout: Duration::from_millis(500),
        login_grace_time: Duration::from_secs(15),
    }
}

fn always(_: TokenRequest) -> TokenReply {
    TokenReply {
        level: 0,
        granted: true,
    }
}

fn timed_out(timeout: PreauthTimeout) -> Vec<Cause> {
    vec![
        Cause {
            timed_out: false,
            message: "session failed".to_string(),
        },
        Cause {
            timed_out: true,
            message: timeout.message().to_string(),
        },
    ]
}

fn limits_of(banner_millis: u64, kex_millis: u64, login_millis: u64) -> PreauthLimits {
    PreauthLimits {
        client_banner_timeout: Duration::from_millis(banner_millis),
        kex_start_timeout: Duration::from_millis(kex_millis),
        login_grace_time: Duration::from_millis(login_millis),
    }
}

#[test]
fn closes_silent_clients_after_banner_timeout() {
    let limits = limits_of(150, 5_000, 600);
    let mut watch = PreauthWatch::new(at(0), limits);
    assert_eq!(watch.next_deadline(), Some(150_000_000));
    assert_eq!(poll_decision(&watch, at(149), false), PollDecision::Wait);
    assert_eq!(
        poll_decision(&watch, at(150), false),
        PollDecision::Fail(PreauthTimeout::Banner)
    );
    // Part of a line does not help.
    watch.observe(&b"SSH-2.0-".to_vec(), at(100));
    assert_eq!(watch.verdict(at(250)), Some(PreauthTimeout::Banner));
    assert_eq!(watch.verdict(at(600)), Some(PreauthTimeout::LoginGrace));

    let failure = SetupFailure {
        causes: timed_out(PreauthTimeout::Banner),
        shown: "session failed".to_string(),
    };
    let notice = setup_notice(failure, "1.2.3.4:5", limits);
    assert_eq!(notice.category, Some("banner-timeout"));
    assert_eq!(
        notice.text,
        "timed out waiting for SSH banner from 1.2.3.4:5 after 150ms"
    );
}

#[test]
fn closes_banner_only_clients_after_login_grace_time() {
    let mut watch = PreauthWatch::new(at(0), limits_of(500, 5_000, 200));
    watch.observe(&b"SSH-2.0-test-client\r\n".to_vec(), at(10));
    assert_eq!(watch.verdict(at(199)), None);
    assert_eq!(watch.verdict(at(200)), Some(PreauthTimeout::LoginGrace));
    assert_eq!(watch.next_deadline(), Some(200_000_000));
}

#[test]
fn closes_banner_only_clients_after_kex_start_timeout() {
    let mut watch = PreauthWatch::new(at(0), limits_of(500, 150, 2_000));
    assert_eq!(watch.verdict(at(499)), None);
    watch.observe(&b"SSH-2.0-test-client\r\n".to_vec(), at(400));
    assert_eq!(watch.verdict(at(549)), None);
    assert_eq!(watch.verdict(at(550)), Some(PreauthTimeout::KexStart));
    assert_eq!(watch.next_deadline(), Some(550_000_000));
    watch.observe(&vec![0, 0, 0, 9, 9, 20], at(500));
    assert_eq!(watch.phase, PreauthPhase::Started);
    assert_eq!(watch.verdict(at(550)), None);
}

#[test]
fn a_login_lifts_the_deadlines() {
    let mut watch = PreauthWatch::new(at(0), limits_of(500, 150, 5_000));
    watch.observe(&b"SSH-2.0-x\n".to_vec(), at(0));
    watch.mark_authenticated();
    assert_eq!(watch.verdict(at(1_000_000)), None);
    assert_eq!(watch.next_deadline(), None);
}

#[test]
fn polls_fail_when_the_time_is_over() {
    let watch = PreauthWatch::new(at(0), limits_of(2_000, 1_000, 1_000));
    assert_eq!(poll_decision(&watch, at(10), true), PollDecision::Pass);
    assert_eq!(poll_decision(&watch, at(10), false), PollDecision::Wait);
    assert_eq!(
        poll_decision(&watch, at(1000), false),
        PollDecision::Fail(PreauthTimeout::LoginGrace)
    );
}

#[test]
fn closes_clients_that_never_identify_themselves() {
    let limits = limits_of(150, 5_000, 600);
    let mut watch = PreauthWatch::new(at(0), limits);
    watch.observe(&b"\nABCDEF".to_vec(), at(10));
    assert_eq!(watch.verdict(at(149)), None);
    assert_eq!(watch.verdict(at(150)), Some(PreauthTimeout::Banner));

    let mut watch = PreauthWatch::new(at(0), limits);
    watch.observe(&b"GET / HTTP/1.1\r\nHost: SSH-2.0-x\r\n\r\n".to_vec(), at(10));
    assert_eq!(watch.verdict(at(150)), Some(PreauthTimeout::Banner));

    // Lines may come first, and the identification in pieces.
    let mut watch = PreauthWatch::new(at(0), limits);
    watch.observe(&b"hello\r\nSS".to_vec(), at(10));
    watch.observe(&b"H-2.0-x\r".to_vec(), at(20));
    assert_eq!(watch.verdict(at(150)), Some(PreauthTimeout::Banner));
    watch.observe(&b"\n".to_vec(), at(30));
    assert_eq!(watch.verdict(at(150)), None);
    assert_eq!(watch.verdict(at(600)), Some(PreauthTimeout::LoginGrace));
}

fn admission(global: usize, per_ip: usize, per_subnet: usize) -> AdmissionController {
    AdmissionController::new(AdmissionConfig {
        max_unauth_connections_global: global,
        max_unauth_connections_per_ip: per_ip,
        max_unauth_connections_per_subnet: per_subnet,
        new_connections_per_minute_per_ip: 60,
        new_connections_burst_per_ip: 8,
        auth_failure_ban_threshold: 8,
        auth_failure_ban_window: Duration::from_secs(30),
        auth_failure_ban_duration: Duration::from_secs(60),
    })
}

#[test]
fn authenticated_sessions_release_unauth_slots() {
    let mut controller = admission(1, 1, 4);
    let peer = IpAddr::v4(127, 0, 0, 1);
    let limits = limits_of(500, 5_000, 1_000);
    let guard = controller.try_acquire_at(peer, at(0), always).unwrap();
    let mut context = PreauthContext::new(guard);
    let mut watch = PreauthWatch::new(at(0), limits);
    watch.observe(&b"SSH-2.0-test-client\r\n".to_vec(), at(0));
    assert_eq!(
        controller.try_acquire_at(peer, at(1), always).unwrap_err(),
        RejectReason::TooManyUnauthenticatedConnections
    );
    watch.mark_authenticated();
    assert!(context.release(&mut controller, at(2)));
    assert!(!context.release(&mut controller, at(3)));
    let second = controller.try_acquire_at(peer, at(4), always).unwrap();
    assert_eq!(watch.verdict(at(5_000)), None);
    assert!(PreauthContext::new(second).release(&mut controller, at(5)));
}

#[test]
fn malformed_preauth_packets_do_not_kill_the_listener() {
    let limits = limits_of(500, 1_000, 1_000);
    let mut controller = admission(1, 1, 1);
    let peer = IpAddr::v4(127, 0, 0, 1);
    let guard = controller.try_acquire_at(peer, at(0), always).unwrap();
    let mut context = PreauthContext::new(guard);
    let mut watch = PreauthWatch::new(at(0), limits);
    let mut supervisor = ConnectionSupervisor::new("1.2.3.4:5".to_string(), limits, at(0));
    watch.observe(&b"SSH-2.0-test-client\r\n".to_vec(), at(10));
    watch.observe(&vec![0, 0, 0, 0, 0], at(20));
    assert_eq!(watch.verdict(at(400)), None);
    let action = supervisor.on_event(ConnectionEvent::SetupFailed(SetupFailure {
        causes: vec![Cause {
            timed_out: false,
            message: "bad packet".to_string(),
        }],
        shown: "bad packet".to_string(),
    }));
    match action {
        ConnectionAction::Finish { notice, failed } => {
            let notice = notice.unwrap();
            assert_eq!(notice.category, None);
            assert_eq!(
                notice.text,
                "SSH setup from 1.2.3.4:5 failed before authentication: bad packet"
            );
            assert!(!failed);
        }
        other => panic!("unexpected action {other:?}"),
    }
    assert_eq!(supervisor.stage, ConnectionStage::Closed);
    assert!(context.release(&mut controller, at(21)));

    let healthy = controller.try_acquire_at(peer, at(30), always).unwrap();
    let mut next = ConnectionSupervisor::new("1.2.3.4:6".to_string(), limits, at(30));
    assert!(matches!(
        next.on_event(ConnectionEvent::SetupDone),
        ConnectionAction::Serve
    ));
    assert!(PreauthContext::new(healthy).release(&mut controller, at(40)));
}

#[test]
fn a_connection_is_served_to_its_end() {
    let mut supervisor = ConnectionSupervisor::new("p".to_string(), limits(), at(0));
    assert!(matches!(
        supervisor.on_event(ConnectionEvent::SetupDone),
        ConnectionAction::Serve
    ));
    let action = supervisor.on_event(ConnectionEvent::LoggedIn(at(1500)));
    match action {
        ConnectionAction::Report(text) => {
            assert_eq!(text, "authentication completed for p in 1.5s");
        }
        other => panic!("unexpected action {other:?}"),
    }
    assert_eq!(supervisor.stage, ConnectionStage::LoggedIn);
    supervisor.on_event(ConnectionEvent::Ended(None));
    assert_eq!(supervisor.stage, ConnectionStage::Closed);
}

#[test]
fn deadlines_are_recognised_among_the_causes() {
    let grace = timed_out(PreauthTimeout::LoginGrace);
    let kex = timed_out(PreauthTimeout::KexStart);
    assert!(is_login_grace_timeout(&grace));
    assert!(!is_login_grace_timeout(&kex));
    assert!(is_preauth_timeout(&kex, PreauthTimeout::KexStart));
    assert!(!is_login_grace_timeout(&vec![Cause {
        timed_out: false,
        message: PreauthTimeout::LoginGrace.message().to_string(),
    }]));

    let notice = session_notice(&grace, "p", limits()).unwrap();
    assert_eq!(notice.category, Some("login-grace-timeout"));
    assert_eq!(
        notice.text,
        "closing pre-auth connection from p after login grace timeout of 15s"
    );
    let notice = session_notice(&kex, "p", limits()).unwrap();
    assert_eq!(notice.category, Some("kex-start-timeout"));
    assert!(session_notice(&vec![], "p", limits()).is_none());
}

#[test]
fn rejections_are_put_into_words() {
    let notice = rejection_notice("9.9.9.9:1", RejectReason::ConnectionRateLimited);
    assert_eq!(notice.category, Some("admission-rate-limit"));
    assert_eq!(
        notice.text,
        "rejected connection from 9.9.9.9:1: connection rate limited"
    );
}
