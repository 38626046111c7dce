use narrowd::authorized_keys::{
    AuthorizedKeysCache, AuthorizedKeysFingerprint, AuthorizedKeysReloadEvent,
    AuthorizedKeysReloadStatus, AuthorizedKeysStore, KeysError, KeysFile, KeysStat,
};
use narrowd::time::{Duration, Instant};
use russh::keys::ssh_key::PublicKey;

const PLAIN_ED25519_KEY: &str = "ssh-ed25519 AAAAC3NzaC1lZDI1NTE5AAAAILM+rvN+ot98qgEN796jTiQfZfG1KaT0PtFDJ/XFSqti user@example.com";
const SECOND_ED25519_KEY: &str = "ssh-ed25519 AAAAC3NzaC1lZDI1NTE5AAAAIKkBZe9F+Q52g8f+k38RXvJY8A8+P9MNm+8cTxS55U8W second@example.com";
const OPTIONED_RSA_ENTRY: &str = "from=\"10.0.0.?,*.example.com\",no-X11-forwarding ssh-rsa AAAAB3NzaC1yc2EAAAADAQABAAACAQC0WRHtxuxefSJhpIxGq4ibGFgwYnESPm8C3JFM88A1JJLoprenklrd7VJ+VH3Ov/bQwZwLyRU5dRmfR/SWTtIPWs7tToJVayKKDB+/qoXmM5ui/0CU2U4rCdQ6PdaCJdC7yFgpPL8WexjWN06+eSIKYz1AAXbx9rRv1iasslK/KUqtsqzVliagI6jl7FPO2GhRZMcso6LsZGgSxuYf/Lp0D/FcBU8GkeOo1Sx5xEt8H8bJcErtCe4Blb8JxcW6EXO3sReb4z+zcR07gumPgFITZ6hDA8sSNuvo/AlWg0IKTeZSwHHVknWdQqDJ0uczE837caBxyTZllDNIGkBjCIIOFzuTT76HfYc/7CTTGk07uaNkUFXKN79xDiFOX8JQ1ZZMZvGOTwWjuT9CqgdTvQRORbRWwOYv3MH8re9ykw3Ip6lrPifY7s6hOaAKry/nkGPMt40m1TdiW98MTIpooE7W+WXu96ax2l2OJvxX8QR7l+LFlKnkIEEJd/ItF1G22UmOjkVwNASTwza/hlY+8DoVvEmwum/nMgH2TwQT3bTQzF9s9DOJkH4d8p4Mw4gEDjNx0EgUFA91ysCAeUMQQyIvuR8HXXa+VcvhOOO5mmBcVhxJ3qUOJTyDBsT0932Zb4mNtkxdigoVxu+iiwk0vwtvKwGVDYdyMP5EAQeEIP1t0w== user4@example.com";
const DUPLICATE_KEYS: &str = "ssh-ed25519 AAAAC3NzaC1lZDI1NTE5AAAAILM+rvN+ot98qgEN796jTiQfZfG1KaT0PtFDJ/XFSqti user@example.com\nssh-ed25519 AAAAC3NzaC1lZDI1NTE5AAAAILM+rvN+ot98qgEN796jTiQfZfG1KaT0PtFDJ/XFSqti second@example.com\n";

fn encoded(key: &str) -> Option<Vec<u8>> {
    let key: PublicKey = key.parse().unwrap();
    key.to_bytes().ok()
}

fn at(millis: u64) -> Instant {
    Instant {
        nanos: millis * 1_000_000,
    }
}

fn file(modified: i128, text: &str) -> KeysFile {
    KeysFile::Opened {
        modified: Some(modified),
        len: text.len() as u64,
        text: Some(text.to_string()),
    }
}

fn stat(modified: i128, text: &str) -> KeysStat {
    KeysStat::Present {
        modified: Some(modified),
        len: text.len() as u64,
    }
}

fn store(interval: Duration, text: &str) -> AuthorizedKeysStore {
    AuthorizedKeysStore::load(
        "authorized_keys".to_string(),
        1024,
        8,
        interval,
        file(1, text),
        at(0),
    )
    .unwrap()
}

#[test]
fn accepts_plain_keys_and_ignores_optioned_entries() {
    let cache = AuthorizedKeysCache::from_text(
        &format!("{PLAIN_ED25519_KEY}\n{OPTIONED_RSA_ENTRY}\n"),
        8,
    )
    .unwrap();

    assert!(cache.contains(&encoded(PLAIN_ED25519_KEY)).unwrap());
    assert_eq!(cache.key_count(), 1);
    assert_eq!(cache.ignored_entries(), 1);
    assert!(!cache.contains(&encoded(SECOND_ED25519_KEY)).unwrap());
}

#[test]
fn rejects_duplicate_plain_keys() {
    let err = AuthorizedKeysCache::from_text(DUPLICATE_KEYS, 8).unwrap_err();
    assert!(err.message().contains("duplicate"));
}

#[test]
fn rejects_too_many_entries() {
    let err = AuthorizedKeysCache::from_text(PLAIN_ED25519_KEY, 0).unwrap_err();
    assert!(err.message().contains("entry limit"));
}

#[test]
fn reloads_after_file_change() {
    let first = format!("{PLAIN_ED25519_KEY}\n");
    let second = format!("{SECOND_ED25519_KEY}\n");
    let mut store = store(Duration::from_millis(0), &first);
    assert!(store.contains(&encoded(PLAIN_ED25519_KEY)).unwrap());
    assert!(!store.contains(&encoded(SECOND_ED25519_KEY)).unwrap());

    let event = store
        .refresh_if_due(at(20), || stat(2, &second), || file(2, &second))
        .unwrap();
    assert_eq!(
        event,
        Some(AuthorizedKeysReloadEvent::Loaded {
            generation: 2,
            ignored_entries: 0
        })
    );
    assert!(!store.contains(&encoded(PLAIN_ED25519_KEY)).unwrap());
    assert!(store.contains(&encoded(SECOND_ED25519_KEY)).unwrap());
}

#[test]
fn keeps_last_known_good_cache_when_reload_fails() {
    let first = format!("{PLAIN_ED25519_KEY}\n");
    let bad =
        format!("{PLAIN_ED25519_KEY}\n{PLAIN_ED25519_KEY}\ninvalid line without a key\n");
    let second = format!("{SECOND_ED25519_KEY}\n");
    let mut store = store(Duration::from_millis(0), &first);

    let event = store
        .refresh_if_due(at(20), || stat(2, &bad), || file(2, &bad))
        .unwrap();
    assert!(matches!(event, Some(AuthorizedKeysReloadEvent::Failed(_))));
    assert!(store.contains(&encoded(PLAIN_ED25519_KEY)).unwrap());
    assert!(!store.contains(&encoded(SECOND_ED25519_KEY)).unwrap());
    assert_eq!(
        store.status().last_reload_status,
        AuthorizedKeysReloadStatus::Failed(
            "authorized keys file contains a duplicate plain key entry".to_string()
        )
    );
    assert_eq!(
        store
            .refresh_if_due(at(20), || stat(2, &bad), || file(2, &bad))
            .unwrap(),
        None
    );

    let event = store
        .refresh_if_due(at(40), || stat(3, &second), || file(3, &second))
        .unwrap();
    assert!(matches!(
        event,
        Some(AuthorizedKeysReloadEvent::Loaded { generation: 2, .. })
    ));
    assert!(!store.contains(&encoded(PLAIN_ED25519_KEY)).unwrap());
    assert!(store.contains(&encoded(SECOND_ED25519_KEY)).unwrap());
}

#[test]
fn delays_reload_until_debounce_interval_passes() {
    let first = format!("{PLAIN_ED25519_KEY}\n");
    let second = format!("{SECOND_ED25519_KEY}\n");
    let mut store = store(Duration::from_secs(60), &first);

    assert_eq!(
        store
            .refresh_if_due(at(20), || stat(2, &second), || file(2, &second))
            .unwrap(),
        None
    );
    assert!(store.contains(&encoded(PLAIN_ED25519_KEY)).unwrap());
    assert!(!store.contains(&encoded(SECOND_ED25519_KEY)).unwrap());

    assert!(store
        .refresh_if_due(at(60_000), || stat(2, &second), || file(2, &second))
        .unwrap()
        .is_some());
    assert!(store.contains(&encoded(SECOND_ED25519_KEY)).unwrap());
}

#[test]
fn an_unchanged_file_is_not_read_again() {
    let first = format!("{PLAIN_ED25519_KEY}\n");
    let mut store = store(Duration::from_millis(0), &first);
    let event = store
        .refresh_if_due(at(20), || stat(1, &first), || panic!("must not be read"))
        .unwrap();
    assert_eq!(event, None);
    assert_eq!(store.status().generation, 1);
}

#[test]
fn a_file_that_vanishes_leaves_its_keys_in_force() {
    let first = format!("{PLAIN_ED25519_KEY}\n");
    let mut store = store(Duration::from_millis(0), &first);
    let event = store
        .refresh_if_due(at(20), || KeysStat::NotFound, || KeysFile::Unopened)
        .unwrap();
    assert_eq!(event, Some(AuthorizedKeysReloadEvent::Missing));
    assert!(store.contains(&encoded(PLAIN_ED25519_KEY)).unwrap());
    assert_eq!(
        store.status().last_reload_status,
        AuthorizedKeysReloadStatus::Missing
    );
    assert!(store
        .refresh_if_due(at(30), || KeysStat::Unknown, || KeysFile::Unopened)
        .is_err());
}

#[test]
fn a_missing_file_may_appear() {
    let text = format!("{PLAIN_ED25519_KEY}\n");
    let mut store = AuthorizedKeysStore::empty_missing(
        "authorized_keys".to_string(),
        1024,
        8,
        Duration::from_millis(0),
        at(0),
    );
    assert!(!store.contains(&encoded(PLAIN_ED25519_KEY)).unwrap());
    store
        .refresh_if_due(at(1), || stat(5, &text), || file(5, &text))
        .unwrap()
        .unwrap();
    assert!(store.contains(&encoded(PLAIN_ED25519_KEY)).unwrap());
}

#[test]
fn files_that_cannot_be_used_are_told_apart() {
    let load = |file: KeysFile| AuthorizedKeysCache::load(file, "/k", 4, 8).unwrap_err();
    assert!(matches!(load(KeysFile::Unopened), KeysError::Unreadable { .. }));
    assert!(matches!(load(KeysFile::NoMetadata), KeysError::NoMetadata { .. }));
    assert!(matches!(
        load(KeysFile::Opened {
            modified: None,
            len: 5,
            text: None
        }),
        KeysError::TooLarge { .. }
    ));
    assert!(matches!(
        load(KeysFile::Opened {
            modified: None,
            len: 4,
            text: None
        }),
        KeysError::Unreadable { .. }
    ));
    let empty = KeysFile::Opened {
        modified: None,
        len: 0,
        text: Some(String::new()),
    };
    let (cache, fingerprint) = AuthorizedKeysCache::load(empty, "/k", 4, 8).unwrap();
    assert_eq!(cache.key_count(), 0);
    assert_eq!(fingerprint, AuthorizedKeysFingerprint::from_metadata(None, 0));
}

#[test]
fn lines_that_are_no_keys_are_errors() {
    let err = AuthorizedKeysCache::from_text("no key at all\n", 8).unwrap_err();
    assert!(matches!(err, KeysError::BadEntry { .. }));
    assert!(err
        .message()
        .starts_with("failed to parse authorized_keys entry: "));
}

#[test]
fn a_key_that_cannot_be_encoded_is_an_error() {
    let err = AuthorizedKeysCache::empty().contains(&None).unwrap_err();
    assert!(matches!(err, KeysError::BadOfferedKey));
}
