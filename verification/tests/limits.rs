use narrowd::config::Platform;
use narrowd::log_limiter::{LogDecision, LogKey, LogLimiter};
use narrowd::logging::{
    append_bootstrap_error, log_directory, rotated_log_path, RotatingLogFile,
    DEFAULT_LOG_ROTATE_BYTES,
};
use narrowd::metrics::ServerMetrics;
use narrowd::net::IpAddr;
use narrowd::time::{Duration, Instant};

fn key(octet: u8) -> LogKey {
    LogKey {
        peer_ip: Some(IpAddr::v4(10, 0, 0, octet)),
        category: "auth-failure",
    }
}

fn at(secs: u64) -> Instant {
    Instant {
        nanos: secs * 1_000_000_000,
    }
}

#[test]
fn suppresses_duplicates_within_window_and_reports_summary() {
    let mut limiter = LogLimiter::new(Duration::from_secs(30), 64, at(0));

    assert_eq!(
        limiter.check_at(key(1), at(0)),
        LogDecision::Emit { suppressed: 0 }
    );
    assert_eq!(limiter.check_at(key(1), at(1)), LogDecision::Suppress);
    assert_eq!(
        limiter.check_at(key(1), at(31)),
        LogDecision::Emit { suppressed: 1 }
    );
}

#[test]
fn evicts_old_entries_when_map_grows() {
    let mut limiter = LogLimiter::new(Duration::from_secs(10), 2, at(0));

    assert_eq!(
        limiter.check_at(key(1), at(0)),
        LogDecision::Emit { suppressed: 0 }
    );
    assert_eq!(
        limiter.check_at(key(2), at(1)),
        LogDecision::Emit { suppressed: 0 }
    );
    assert_eq!(
        limiter.check_at(key(3), at(25)),
        LogDecision::Emit { suppressed: 0 }
    );

    assert!(limiter.len() <= 2);
    assert!(!limiter.contains(&key(1)));
}

#[test]
fn keys_are_limited_one_by_one() {
    let mut limiter = LogLimiter::new(Duration::from_secs(30), 64, at(0));
    let other = LogKey {
        peer_ip: Some(IpAddr::v4(10, 0, 0, 1)),
        category: "banner-timeout",
    };
    let nobody = LogKey {
        peer_ip: None,
        category: "auth-failure",
    };
    for k in [key(1), other, nobody, key(2)] {
        assert_eq!(limiter.check_at(k, at(5)), LogDecision::Emit { suppressed: 0 });
        assert_eq!(limiter.check_at(k, at(6)), LogDecision::Suppress);
        assert_eq!(limiter.check_at(k, at(7)), LogDecision::Suppress);
    }
    assert_eq!(limiter.len(), 4);
    assert_eq!(
        limiter.check_at(nobody, at(40)),
        LogDecision::Emit { suppressed: 2 }
    );
    assert_eq!(limiter.window(), Duration::from_secs(30));
}

#[test]
fn the_oldest_record_makes_room() {
    let mut limiter = LogLimiter::new(Duration::from_secs(1000), 2, at(0));
    limiter.check_at(key(1), at(1));
    limiter.check_at(key(2), at(2));
    limiter.check_at(key(1), at(3));
    limiter.check_at(key(3), at(4));
    assert_eq!(limiter.len(), 3);
    limiter.check_at(key(4), at(5));
    assert_eq!(limiter.len(), 3);
    assert!(!limiter.contains(&key(1)));
    assert!(limiter.contains(&key(2)));
    assert!(limiter.contains(&key(3)));
}

#[test]
fn a_cleanup_drops_the_oldest_records() {
    let mut limiter = LogLimiter::new(Duration::from_secs(1000), 2, at(0));
    limiter.check_at(key(2), at(1));
    limiter.check_at(key(1), at(2));
    limiter.maybe_cleanup(at(3));
    assert_eq!(limiter.len(), 2);
    limiter.check_at(key(3), at(4));
    assert_eq!(limiter.len(), 3);
    limiter.maybe_cleanup(at(5));
    assert_eq!(limiter.len(), 2);
    assert!(!limiter.contains(&key(2)));
    assert!(limiter.contains(&key(1)));
    assert!(limiter.contains(&key(3)));
}

#[test]
fn tracks_security_counters() {
    let mut metrics = ServerMetrics::new(8);
    let peer = IpAddr::v4(10, 0, 0, 2);

    metrics.preauth_connection_opened();
    metrics.record_rejected_connection("banner-timeout");
    metrics.record_auth_failure(Some(peer), false);
    metrics.record_auth_failure(Some(peer), true);
    metrics.record_preauth_timeout();
    metrics.record_malformed_disconnect();
    metrics.record_cache_reload_success();
    metrics.record_cache_reload_failure();
    metrics.preauth_connection_closed();

    let snapshot = metrics.snapshot();
    assert_eq!(snapshot.current_unauthenticated_connections, 0);
    assert_eq!(snapshot.rejected_for("banner-timeout"), Some(1));
    assert_eq!(snapshot.auth_failures_of(peer), Some(2));
    assert_eq!(snapshot.temporary_bans_issued, 1);
    assert_eq!(snapshot.preauth_timeouts, 1);
    assert_eq!(snapshot.malformed_packet_disconnects, 1);
    assert_eq!(snapshot.authorized_keys_reload_successes, 1);
    assert_eq!(snapshot.authorized_keys_reload_failures, 1);
}

#[test]
fn bounds_auth_failure_ips_and_tracks_overflow() {
    let mut metrics = ServerMetrics::new(1);

    metrics.record_auth_failure(Some(IpAddr::v4(10, 0, 0, 1)), false);
    metrics.record_auth_failure(Some(IpAddr::v4(10, 0, 0, 2)), false);

    let snapshot = metrics.snapshot();
    assert_eq!(snapshot.auth_failures_by_ip.len(), 1);
    assert_eq!(snapshot.auth_failure_ip_overflow, 1);
}

#[test]
fn counters_do_not_fall_below_zero() {
    let mut metrics = ServerMetrics::new(1);
    metrics.preauth_connection_closed();
    assert_eq!(metrics.snapshot().current_unauthenticated_connections, 0);
    metrics.preauth_connection_opened();
    assert_eq!(metrics.snapshot().current_unauthenticated_connections, 1);
    assert_eq!(metrics.snapshot().rejected_for("x"), None);
}

#[test]
fn log_files_are_moved_aside_before_they_grow_too_long() {
    let mut file = RotatingLogFile::new("/var/log/n.log".to_string(), 10, 4, Platform::Unix);
    assert_eq!(file.path(), "/var/log/n.log");
    assert_eq!(file.rotated_path(), "/var/log/n.log.1");
    assert!(!file.rotate_if_needed(6));
    file.wrote(6);
    assert!(file.rotate_if_needed(1));
    file.reopened(0);
    // An empty file is never moved aside, however long the line is.
    assert!(!file.rotate_if_needed(50));
    assert_eq!(DEFAULT_LOG_ROTATE_BYTES, 10 * 1024 * 1024);
}

#[test]
fn notes_before_the_log_is_up_go_to_its_file() {
    assert!(append_bootstrap_error(None, "x", Platform::Unix).is_none());
    let note = append_bootstrap_error(Some("/var/log/n.log"), "cannot start", Platform::Unix).unwrap();
    assert_eq!(note.directory.as_deref(), Some("/var/log"));
    assert_eq!(note.path, "/var/log/n.log");
    assert_eq!(note.line, "narrowd bootstrap error: cannot start\n");
    assert_eq!(log_directory("n.log", Platform::Unix).as_deref(), Some(""));
    assert_eq!(rotated_log_path("n.log", Platform::Unix), "n.log.1");
    assert_eq!(rotated_log_path("/", Platform::Unix), "narrowd.log.1");
    assert_eq!(
        log_directory("C:\\logs\\n.log", Platform::Windows).as_deref(),
        Some("C:\\logs")
    );
    assert_eq!(
        rotated_log_path("C:\\logs\\n.log", Platform::Windows),
        "C:\\logs\\n.log.1"
    );
}

#[test]
fn logged_messages_lie_a_window_apart_and_tell_of_those_between() {
    let mut limiter = LogLimiter::new(Duration::from_secs(10), 2, at(0));
    let mut logged = Vec::new();
    for second in 0..45 {
        let _ = limiter.check_at(key(2), at(second));
        if let LogDecision::Emit { suppressed } = limiter.check_at(key(1), at(second)) {
            logged.push((second, suppressed));
        }
    }
    assert_eq!(logged, vec![(0, 0), (10, 9), (20, 9), (30, 9), (40, 9)]);
}

#[test]
fn failures_add_up_over_many_reports() {
    let mut metrics = ServerMetrics::new(2);
    let ip = |octet: u8| IpAddr::v4(10, 0, 0, octet);
    for (peer, banned) in [
        (Some(ip(1)), false),
        (None, true),
        (Some(ip(2)), false),
        (Some(ip(3)), true),
        (Some(ip(1)), true),
        (Some(ip(4)), false),
        (Some(ip(1)), false),
    ] {
        metrics.record_auth_failure(peer, banned);
    }
    let snapshot = metrics.snapshot();
    assert_eq!(snapshot.auth_failures_of(ip(1)), Some(3));
    assert_eq!(snapshot.auth_failures_of(ip(2)), Some(1));
    assert_eq!(snapshot.auth_failures_of(ip(3)), None);
    assert_eq!(snapshot.auth_failure_ip_overflow, 2);
    assert_eq!(snapshot.temporary_bans_issued, 3);
}
