use narrowd::admission::{RejectReason, TokenReply, TokenRequest};
use narrowd::authorized_keys::KeysFile;
use narrowd::config::{AppConfig, Platform};
use narrowd::net::IpAddr;
use narrowd::preauth::PreauthContext;
use narrowd::sshd::{
    build_ssh_config, daemon_username, ignored_entries_warning, is_user_key_algorithm_allowed,
    login_user_matches_daemon, missing_keys_warning, peer_label, AppState, AuthMethod,
    BootstrapError, BootstrapFacts, OfferedKey, Peer, UserLookup,
};
use narrowd::time::{Duration, Instant};
use russh::keys::ssh_key::{Algorithm, PublicKey};

const KEY: &str = "ssh-ed25519 AAAAC3NzaC1lZDI1NTE5AAAAILM+rvN+ot98qgEN796jTiQfZfG1KaT0PtFDJ/XFSqti user@example.com";
const OTHER_KEY: &str = "ssh-ed25519 AAAAC3NzaC1lZDI1NTE5AAAAIKkBZe9F+Q52g8f+k38RXvJY8A8+P9MNm+8cTxS55U8W second@example.com";

fn at(millis: u64) -> Instant {
    Instant {
        nanos: millis * 1_000_000,
    }
}

fn config() -> AppConfig {
    AppConfig::defaults_for(Some("/home/uli".to_string()), None, Platform::Unix).unwrap()
}

fn facts(text: &str) -> BootstrapFacts {
    BootstrapFacts {
        home_dir: Some("/home/uli".to_string()),
        daemon_username: "uli".to_string(),
        host_key_algorithm: Algorithm::Ed25519,
        keys_file: KeysFile::Opened {
            modified: Some(1),
            len: text.len() as u64,
            text: Some(text.to_string()),
        },
        keys_file_exists: true,
    }
}

fn state() -> AppState {
    AppState::bootstrap(config(), facts(&format!("{KEY}\n")), at(0))
        .unwrap()
        .0
}

fn offer(text: &str) -> OfferedKey {
    let key: PublicKey = text.parse().unwrap();
    OfferedKey {
        algorithm: key.algorithm(),
        algorithm_shown: format!("{:?}", key.algorithm()),
        encoded: key.to_bytes().ok(),
    }
}

fn peer() -> Option<Peer> {
    Some(Peer {
        ip: IpAddr::v4(10, 0, 0, 1),
        label: "10.0.0.1:22".to_string(),
    })
}

#[test]
fn rejects_non_matching_login_usernames() {
    assert!(login_user_matches_daemon("uli", "uli"));
    assert!(!login_user_matches_daemon("root", "uli"));
}

#[test]
fn allows_only_modern_user_key_algorithms() {
    assert!(is_user_key_algorithm_allowed(&Algorithm::Ed25519));
    assert!(is_user_key_algorithm_allowed(&Algorithm::SkEd25519));
    assert!(!is_user_key_algorithm_allowed(&Algorithm::Dsa));
    assert!(!is_user_key_algorithm_allowed(&Algorithm::Rsa { hash: None }));
}

#[test]
fn builds_public_exposure_ssh_config_from_app_config() {
    let mut config = AppConfig::defaults(Platform::Unix).unwrap();
    config.max_auth_attempts = 7;
    config.auth_rejection_time = Duration::from_secs(4);
    config.keepalive_interval = Duration::from_secs(42);
    config.keepalive_max = 5;
    config.channel_buffer_size = 24;
    config.event_buffer_size = 12;
    config.window_size = 123_456;
    config.maximum_packet_size = 16_384;
    config.nodelay = false;

    let ssh_config = build_ssh_config(&config);

    assert_eq!(ssh_config.methods, vec![AuthMethod::PublicKey]);
    assert_eq!(ssh_config.auth_rejection_time, Duration::from_secs(4));
    assert_eq!(
        ssh_config.auth_rejection_time_initial,
        Some(Duration::from_secs(4))
    );
    assert_eq!(ssh_config.max_auth_attempts, 7);
    assert_eq!(ssh_config.keepalive_interval, Some(Duration::from_secs(42)));
    assert_eq!(ssh_config.keepalive_max, 5);
    assert_eq!(ssh_config.channel_buffer_size, 24);
    assert_eq!(ssh_config.event_buffer_size, 12);
    assert_eq!(ssh_config.window_size, 123_456);
    assert_eq!(ssh_config.maximum_packet_size, 16_384);
    assert!(!ssh_config.nodelay);
    assert_eq!(
        ssh_config.preferred.kex,
        vec![
            russh::kex::MLKEM768X25519_SHA256.as_ref(),
            russh::kex::CURVE25519.as_ref(),
            russh::kex::CURVE25519_PRE_RFC_8731.as_ref(),
            russh::kex::EXTENSION_SUPPORT_AS_SERVER.as_ref(),
            russh::kex::EXTENSION_OPENSSH_STRICT_KEX_AS_SERVER.as_ref(),
        ]
    );
    assert_eq!(
        ssh_config.preferred.key,
        vec![Algorithm::Ed25519.as_ref(), Algorithm::SkEd25519.as_ref()]
    );
    assert_eq!(
        ssh_config.preferred.cipher,
        vec![
            russh::cipher::CHACHA20_POLY1305.as_ref(),
            russh::cipher::AES_256_GCM.as_ref(),
            russh::cipher::AES_256_CTR.as_ref(),
            russh::cipher::AES_128_CTR.as_ref(),
        ]
    );
    assert_eq!(
        ssh_config.preferred.mac,
        vec![
            russh::mac::HMAC_SHA512_ETM.as_ref(),
            russh::mac::HMAC_SHA256_ETM.as_ref(),
            russh::mac::HMAC_SHA512.as_ref(),
            russh::mac::HMAC_SHA256.as_ref(),
        ]
    );
    assert_eq!(
        ssh_config.preferred.compression,
        vec![russh::compression::NONE.as_ref()]
    );
}

#[test]
fn listed_keys_log_in() {
    let mut state = state();
    let answer = state
        .authorize_key(&peer(), "uli", &offer(KEY), at(1))
        .unwrap();
    assert!(answer.accepted);
    assert_eq!(
        answer.log.as_deref(),
        Some("accepted public key for requested user uli from 10.0.0.1:22")
    );
    let answer = state
        .authorize_key(&peer(), "uli", &offer(OTHER_KEY), at(1))
        .unwrap();
    assert!(!answer.accepted);
    let mut old = offer(KEY);
    old.algorithm = Algorithm::Rsa { hash: None };
    assert!(!state.authorize_key(&None, "uli", &old, at(1)).unwrap().accepted);
    let mut broken = offer(KEY);
    broken.encoded = None;
    assert!(state.authorize_key(&None, "uli", &broken, at(1)).is_err());
}

fn always(_: TokenRequest) -> TokenReply {
    TokenReply {
        level: 0,
        granted: true,
    }
}

/// A connection that offers one key and is closed.
fn attempt(state: &mut AppState, user: &str, key: &str, millis: u64) -> (bool, Option<String>) {
    let ip = IpAddr::v4(10, 0, 0, 1);
    let guard = state
        .admission
        .try_acquire_at(ip, at(millis), always)
        .unwrap();
    let mut context = PreauthContext::new(guard);
    let answer = state
        .authorize_key(&peer(), user, &offer(key), at(millis))
        .unwrap();
    context.release(&mut state.admission, at(millis));
    (answer.accepted, answer.log)
}

#[test]
fn repeated_auth_rejects_are_log_limited() {
    let mut config = config();
    config.client_banner_timeout = Duration::from_millis(500);
    config.login_grace_time = Duration::from_secs(1);
    config.auth_failure_ban_threshold = 64;
    config.new_connections_per_minute_per_ip = 120;
    config.new_connections_burst_per_ip = 16;
    let (mut state, _) = AppState::bootstrap(config, facts(""), at(0)).unwrap();
    let wrong_user = "wrong-user-log-limit-test";
    let mut logged = Vec::new();
    for i in 0..5 {
        let (accepted, log) = attempt(&mut state, wrong_user, OTHER_KEY, 120 * i);
        assert!(!accepted, "wrong username should not authenticate");
        logged.extend(log);
    }
    let matching_logs = logged
        .iter()
        .filter(|entry| {
            entry.contains("event=auth_rejected")
                && entry.contains("category=auth-reject-username")
                && entry.contains("wrong-user-log-limit-test")
        })
        .count();
    assert_eq!(
        matching_logs, 1,
        "expected only the first repeated auth warning to be logged"
    );
    assert_eq!(logged.len(), 1);

    let (accepted, later) = attempt(&mut state, wrong_user, OTHER_KEY, 60_000);
    assert!(!accepted);
    assert!(later
        .unwrap()
        .ends_with("; suppressed 4 similar messages in the last 30s"));
}

#[test]
fn repeated_auth_failures_trigger_temporary_bans() {
    let mut config = config();
    config.max_unauth_connections_global = 4;
    config.max_unauth_connections_per_ip = 4;
    config.max_unauth_connections_per_subnet = 8;
    config.new_connections_per_minute_per_ip = 60;
    config.new_connections_burst_per_ip = 8;
    config.auth_failure_ban_threshold = 2;
    config.auth_failure_ban_window = Duration::from_secs(5);
    config.auth_failure_ban_duration = Duration::from_millis(500);
    config.auth_rejection_time = Duration::from_millis(20);
    config.client_banner_timeout = Duration::from_millis(500);
    config.login_grace_time = Duration::from_millis(500);
    let (mut state, _) = AppState::bootstrap(config, facts(&format!("{KEY}\n")), at(0)).unwrap();
    let ip = IpAddr::v4(10, 0, 0, 1);

    let (accepted, log) = attempt(&mut state, "uli", OTHER_KEY, 20);
    assert!(!accepted, "wrong key should not authenticate");
    assert!(!log.unwrap().ends_with("; peer temporarily banned"));
    let (accepted, _) = attempt(&mut state, "uli", OTHER_KEY, 90);
    assert!(!accepted, "wrong key should not authenticate");

    assert_eq!(
        state.admission.try_acquire_at(ip, at(140), always).unwrap_err(),
        RejectReason::TemporarilyBanned
    );
    assert_eq!(
        state.admission.try_acquire_at(ip, at(589), always).unwrap_err(),
        RejectReason::TemporarilyBanned
    );
    let guard = state.admission.try_acquire_at(ip, at(790), always).unwrap();
    PreauthContext::new(guard).release(&mut state.admission, at(791));

    let (accepted, _) = attempt(&mut state, "uli", KEY, 800);
    assert!(accepted);
}

#[test]
fn a_ban_is_part_of_the_warning() {
    let mut config = config();
    config.auth_failure_ban_threshold = 2;
    let (mut state, _) = AppState::bootstrap(config, facts(&format!("{KEY}\n")), at(0)).unwrap();
    assert!(state.auth_password(&peer(), "uli", at(1)).is_some());
    let ip = IpAddr::v4(10, 0, 0, 1);
    assert!(state.admission.begin_acquire(ip, at(2)).is_ok());
    let answer = state
        .authorize_key(&peer(), "uli", &offer(OTHER_KEY), at(3))
        .unwrap();
    assert!(answer.log.unwrap().ends_with("; peer temporarily banned"));
    assert!(state.admission.begin_acquire(ip, at(4)).is_err());
}

#[test]
fn the_daemon_does_not_start_without_what_it_needs() {
    let mut lacking = facts("");
    lacking.home_dir = None;
    assert!(matches!(
        AppState::bootstrap(config(), lacking, at(0)),
        Err(BootstrapError::HomeUnknown)
    ));
    let mut wrong_key = facts("");
    wrong_key.host_key_algorithm = Algorithm::Rsa { hash: None };
    match AppState::bootstrap(config(), wrong_key, at(0)) {
        Err(err) => assert!(matches!(err, BootstrapError::HostKeyNotEd25519 { .. })),
        Ok(_) => panic!("expected an error"),
    }
    match AppState::bootstrap(config(), facts("not a key\n"), at(0)) {
        Err(err) => assert!(matches!(err, BootstrapError::Keys(_))),
        Ok(_) => panic!("expected an error"),
    }
}

#[test]
fn a_missing_key_file_is_a_warning() {
    let mut missing = facts("");
    missing.keys_file = KeysFile::Unopened;
    missing.keys_file_exists = false;
    let (_, warnings) = AppState::bootstrap(config(), missing, at(0)).unwrap();
    assert_eq!(
        warnings,
        vec![missing_keys_warning("/home/uli/.ssh/authorized_keys")]
    );
    assert_eq!(ignored_entries_warning(0, "/k"), None);
    assert!(ignored_entries_warning(2, "/k").unwrap().contains("2"));
}

#[test]
fn the_daemon_knows_its_user() {
    assert_eq!(
        daemon_username(7, UserLookup::Found("uli".to_string())).unwrap(),
        "uli"
    );
    assert_eq!(
        daemon_username(7, UserLookup::NoEntry).unwrap_err().message(),
        "no passwd entry for daemon uid 7"
    );
    assert_eq!(
        daemon_username(7, UserLookup::Failed).unwrap_err().message(),
        "failed to resolve daemon user from current uid"
    );
    assert_eq!(peer_label(&None), "<unknown peer>");
    assert_eq!(peer_label(&peer()), "10.0.0.1:22");
}
