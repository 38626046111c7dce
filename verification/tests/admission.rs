use narrowd::admission::{
    AdmissionConfig, AdmissionController, AdmissionGuard, RejectReason, TokenReply, TokenRequest,
};
use narrowd::config::{AppConfig, Platform};
use narrowd::net::{subnet_key, IpAddr, SubnetKey};
use narrowd::time::{Duration, Instant};

fn test_config() -> AdmissionConfig {
    AdmissionConfig {
        max_unauth_connections_global: 4,
        max_unauth_connections_per_ip: 2,
        max_unauth_connections_per_subnet: 3,
        new_connections_per_minute_per_ip: 12,
        new_connections_burst_per_ip: 2,
        auth_failure_ban_threshold: 3,
        auth_failure_ban_window: Duration::from_secs(30),
        auth_failure_ban_duration: Duration::from_secs(60),
    }
}

fn take_token(request: TokenRequest) -> TokenReply {
    let burst = request.burst_limit as f64;
    let rate = request.limit_per_minute as f64 / 60.0;
    let elapsed = std::time::Duration::from_nanos(request.elapsed_nanos).as_secs_f64();
    let before = match request.level {
        Some(bits) => f64::from_bits(bits),
        None => burst,
    };
    let tokens = (before + elapsed * rate).min(burst);
    let granted = tokens >= 1.0;
    let after = if granted { tokens - 1.0 } else { tokens };
    TokenReply {
        level: after.to_bits(),
        granted,
    }
}

fn at(millis: u64) -> Instant {
    Instant {
        nanos: 1_000_000_000 + millis * 1_000_000,
    }
}

fn acquire(
    controller: &mut AdmissionController,
    peer: IpAddr,
    millis: u64,
) -> Result<AdmissionGuard, RejectReason> {
    controller.try_acquire_at(peer, at(millis), take_token)
}

#[test]
fn enforces_per_ip_limit_until_guard_released() {
    let mut controller = AdmissionController::new(test_config());
    let peer = IpAddr::v4(10, 0, 0, 1);

    let guard1 = acquire(&mut controller, peer, 0).unwrap();
    let guard2 = acquire(&mut controller, peer, 1).unwrap();
    let reject = acquire(&mut controller, peer, 10_000).unwrap_err();

    assert_eq!(reject, RejectReason::TooManyUnauthenticatedConnectionsForIp);

    controller.release(guard1, at(10_000));
    acquire(&mut controller, peer, 5_000).unwrap();
    controller.release(guard2, at(10_000));
}

#[test]
fn enforces_rate_limit_and_refills_over_time() {
    let mut controller = AdmissionController::new(test_config());
    let peer = IpAddr::v4(10, 0, 0, 5);

    let first = acquire(&mut controller, peer, 0).unwrap();
    let second = acquire(&mut controller, peer, 1).unwrap();
    let reject = acquire(&mut controller, peer, 2).unwrap_err();

    assert_eq!(reject, RejectReason::ConnectionRateLimited);

    controller.release(first, at(2));
    controller.release(second, at(2));

    acquire(&mut controller, peer, 10_000).unwrap();
}

#[test]
fn bans_after_repeated_auth_failures_and_expires() {
    let mut controller = AdmissionController::new(test_config());
    let peer = IpAddr::v4(192, 168, 1, 10);

    assert!(!controller.record_auth_failure_at(peer, at(0)));
    assert!(!controller.record_auth_failure_at(peer, at(1_000)));
    assert!(controller.record_auth_failure_at(peer, at(2_000)));

    let reject = acquire(&mut controller, peer, 3_000).unwrap_err();
    assert_eq!(reject, RejectReason::TemporarilyBanned);

    acquire(&mut controller, peer, 65_000).unwrap();
}

#[test]
fn enforces_per_subnet_limit() {
    let mut controller = AdmissionController::new(test_config());

    let _a = acquire(&mut controller, IpAddr::v4(10, 0, 0, 1), 0).unwrap();
    let _b = acquire(&mut controller, IpAddr::v4(10, 0, 0, 2), 0).unwrap();
    let _c = acquire(&mut controller, IpAddr::v4(10, 0, 0, 3), 0).unwrap();

    let reject = acquire(&mut controller, IpAddr::v4(10, 0, 0, 4), 0).unwrap_err();
    assert_eq!(
        reject,
        RejectReason::TooManyUnauthenticatedConnectionsForSubnet
    );
}

#[test]
fn enforces_the_global_limit() {
    let mut controller = AdmissionController::new(test_config());
    for c in 0u8..4 {
        let _ = acquire(&mut controller, IpAddr::v4(10, 0, c, 1), 0).unwrap();
    }
    let reject = acquire(&mut controller, IpAddr::v4(10, 0, 9, 1), 0).unwrap_err();
    assert_eq!(reject, RejectReason::TooManyUnauthenticatedConnections);
}

#[test]
fn a_login_frees_the_slot() {
    let mut controller = AdmissionController::new(test_config());
    let peer = IpAddr::v4(10, 0, 0, 1);
    let guard = acquire(&mut controller, peer, 0).unwrap();
    assert_eq!(guard.peer_ip(), peer);
    let _other = acquire(&mut controller, peer, 0).unwrap();
    guard.mark_authenticated(&mut controller, at(1_000));
    acquire(&mut controller, peer, 60_000).unwrap();
}

#[test]
fn old_failures_do_not_count() {
    let mut controller = AdmissionController::new(test_config());
    let peer = IpAddr::v4(10, 0, 0, 1);
    assert!(!controller.record_auth_failure_at(peer, at(0)));
    assert!(!controller.record_auth_failure_at(peer, at(31_000)));
    assert!(!controller.record_auth_failure_at(peer, at(32_000)));
    assert!(controller.record_auth_failure_at(peer, at(33_000)));
}

#[test]
fn one_peers_ban_leaves_others_alone() {
    let mut controller = AdmissionController::new(test_config());
    let bad = IpAddr::v4(10, 0, 0, 1);
    for _ in 0..3 {
        controller.record_auth_failure_at(bad, at(0));
    }
    assert_eq!(
        acquire(&mut controller, bad, 1).unwrap_err(),
        RejectReason::TemporarilyBanned
    );
    acquire(&mut controller, IpAddr::v4(10, 0, 0, 2), 1).unwrap();
    acquire(&mut controller, IpAddr::V6(1), 1).unwrap();
}

#[test]
fn the_reply_decides_where_nothing_else_does() {
    let mut controller = AdmissionController::new(test_config());
    let peer = IpAddr::V6(7);
    let request = controller.begin_acquire(peer, at(0)).unwrap();
    assert_eq!(request.level, None);
    assert_eq!(request.limit_per_minute, 12);
    assert_eq!(request.burst_limit, 2);
    let granted = TokenReply {
        level: 77,
        granted: true,
    };
    let guard = controller.finish_acquire(peer, at(0), granted).unwrap();
    let again = controller.begin_acquire(peer, at(5)).unwrap();
    assert_eq!(again.level, Some(77));
    assert_eq!(again.elapsed_nanos, 5_000_000);
    let refused = TokenReply {
        level: 78,
        granted: false,
    };
    assert_eq!(
        controller.finish_acquire(peer, at(5), refused).unwrap_err(),
        RejectReason::ConnectionRateLimited
    );

    // A peer without connections, failures or a ban is forgotten once its
    // bucket is full again, and not before.
    controller.release(guard, at(6));
    assert_eq!(controller.begin_acquire(peer, at(7)).unwrap().level, Some(78));
    assert_eq!(controller.begin_acquire(peer, at(10_004)).unwrap().level, Some(78));
    assert_eq!(controller.begin_acquire(peer, at(10_005)).unwrap().level, None);
}

#[test]
fn closing_a_connection_gives_no_token_back() {
    let mut controller = AdmissionController::new(test_config());
    let peer = IpAddr::v4(10, 0, 0, 5);
    for _ in 0..2 {
        let guard = acquire(&mut controller, peer, 0).unwrap();
        controller.release(guard, at(0));
    }
    assert_eq!(
        acquire(&mut controller, peer, 0).unwrap_err(),
        RejectReason::ConnectionRateLimited
    );
    // Twelve tokens a minute make one every five seconds.
    assert_eq!(
        acquire(&mut controller, peer, 4_999).unwrap_err(),
        RejectReason::ConnectionRateLimited
    );
    acquire(&mut controller, peer, 5_001).unwrap();
}

#[test]
fn a_sweep_keeps_what_still_counts() {
    let mut controller = AdmissionController::new(test_config());
    let banned = IpAddr::v4(10, 0, 0, 1);
    let held = IpAddr::v4(10, 0, 1, 1);
    let failing = IpAddr::V6(9);
    let guard = acquire(&mut controller, held, 0).unwrap();
    for _ in 0..3 {
        controller.record_auth_failure_at(banned, at(70_000));
    }
    controller.record_auth_failure_at(failing, at(110_000));
    controller.record_auth_failure_at(failing, at(110_000));
    // The next call comes after more than a minute and looks at every peer.
    assert!(!controller.record_auth_failure_at(IpAddr::V6(1), at(129_000)));
    assert_eq!(
        acquire(&mut controller, banned, 129_500).unwrap_err(),
        RejectReason::TemporarilyBanned
    );
    assert!(controller.record_auth_failure_at(failing, at(130_000)));
    acquire(&mut controller, banned, 130_001).unwrap();
    let _second = acquire(&mut controller, held, 130_001).unwrap();
    assert_eq!(
        acquire(&mut controller, held, 140_000).unwrap_err(),
        RejectReason::TooManyUnauthenticatedConnectionsForIp
    );
    controller.release(guard, at(140_000));
}

#[test]
fn a_ban_ends_with_its_duration_and_the_count_starts_anew() {
    let mut controller = AdmissionController::new(test_config());
    let peer = IpAddr::v4(10, 0, 0, 1);
    assert!(!controller.record_auth_failure_at(peer, at(0)));
    // The first failure is still within the window thirty seconds later.
    assert!(!controller.record_auth_failure_at(peer, at(20_000)));
    assert!(controller.record_auth_failure_at(peer, at(30_000)));
    assert_eq!(
        acquire(&mut controller, peer, 89_999).unwrap_err(),
        RejectReason::TemporarilyBanned
    );
    acquire(&mut controller, peer, 90_000).unwrap();
    assert!(!controller.record_auth_failure_at(peer, at(90_000)));
    assert!(!controller.record_auth_failure_at(peer, at(90_000)));
    assert!(controller.record_auth_failure_at(peer, at(90_000)));
}

#[test]
fn subnets_are_the_leading_bits() {
    assert_eq!(
        subnet_key(IpAddr::v4(10, 1, 2, 3)),
        SubnetKey {
            addr: IpAddr::v4(10, 1, 2, 0),
            prefix_len: 24
        }
    );
    assert_eq!(
        subnet_key(IpAddr::V6(0x20010db8_00000001_00000000_000000ff)),
        SubnetKey {
            addr: IpAddr::V6(0x20010db8_00000001_00000000_00000000),
            prefix_len: 64
        }
    );
}

#[test]
fn limits_come_from_the_settings() {
    let config = AppConfig::defaults_for(Some("/h".to_string()), None, Platform::Unix).unwrap();
    let limits = AdmissionConfig::from_app_config(&config);
    assert_eq!(limits.max_unauth_connections_global, 16);
    assert_eq!(limits.max_unauth_connections_per_subnet, 8);
    assert_eq!(limits.auth_failure_ban_duration, Duration::from_secs(900));
}

#[test]
fn reasons_have_words() {
    assert_eq!(
        RejectReason::TooManyUnauthenticatedConnections.label(),
        "global unauthenticated connection limit reached"
    );
}
