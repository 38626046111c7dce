use narrowd::config::{AppConfig, Platform};
use narrowd::env::EnvTable;
use narrowd::native_paths::{bytes_of_path, show_path, text_of_path, NativePath};
use narrowd::session::build_child_env;
use narrowd::sftp::{realpath_reply, LocalSftp};
use narrowd::sshd::missing_keys_warning;

fn bytes(path: &[u8]) -> String {
    text_of_path(NativePath::Bytes(path.to_vec()))
}

fn text(path: &str) -> String {
    text_of_path(NativePath::Text(path.to_string()))
}

#[test]
fn the_text_of_a_path_gives_the_path_back() {
    assert_eq!(text("/home/ül"), "/home/ül");
    assert_eq!(bytes_of_path("/home/ül"), "/home/ül".as_bytes());
    for path in [
        &b"/home/\xff\x80u"[..],
        b"",
        b"\x7f/\xc3",
        "/\u{10ff80}/\u{10ffff}".as_bytes(),
    ] {
        assert_eq!(bytes_of_path(&bytes(path)), path);
    }
    let odd = text("/a\u{10ff80}b");
    assert_ne!(odd, "/a\u{10ff80}b");
    assert_eq!(bytes_of_path(&odd), "/a\u{10ff80}b".as_bytes());
    assert_eq!(show_path(&odd), "/a\u{10ff80}b");
    assert_eq!(
        bytes_of_path(&format!("{}/{}", bytes(b"\xff"), "é")),
        [&b"\xff/"[..], "é".as_bytes()].concat()
    );
}

#[test]
fn directories_that_are_not_unicode_are_kept() {
    let home = bytes(b"/home/\xff");
    let config = AppConfig::defaults_for(Some(home.clone()), None, Platform::Unix).unwrap();
    assert_eq!(
        bytes_of_path(&config.authorized_keys_file),
        b"/home/\xff/.ssh/authorized_keys"
    );
    assert_eq!(
        bytes_of_path(&config.host_key),
        b"/home/\xff/.config/narrowd/ssh_host_ed25519_key"
    );
    let dir = bytes(b"/etc/\xfe");
    let config =
        AppConfig::defaults_for(Some(home.clone()), Some(dir.clone()), Platform::Unix).unwrap();
    assert_eq!(
        bytes_of_path(&config.host_key),
        b"/etc/\xfe/narrowd/ssh_host_ed25519_key"
    );

    let mut config = config;
    config
        .apply_text_from("HostKey ~/k\nShell sh/b\n", &dir, &Some(home.clone()))
        .unwrap();
    assert_eq!(bytes_of_path(&config.host_key), b"/home/\xff/k");
    assert_eq!(bytes_of_path(&config.shell), b"/etc/\xfe/sh/b");

    let source = AppConfig::source_for(
        Some(bytes(b"/etc/\xfe/n.conf")),
        Some(home.clone()),
        None,
        Platform::Unix,
    )
    .unwrap();
    assert_eq!(bytes_of_path(&source.path), b"/etc/\xfe/n.conf");
    assert_eq!(bytes_of_path(&source.base_dir(Platform::Unix)), b"/etc/\xfe");

    // What is behind a `~` is read as it is shown.
    let source = AppConfig::source_for(
        Some(bytes(b"~/\xfe")),
        Some(home.clone()),
        None,
        Platform::Unix,
    )
    .unwrap();
    assert_eq!(
        bytes_of_path(&source.path),
        [&b"/home/\xff/"[..], "\u{fffd}".as_bytes()].concat()
    );
}

#[test]
fn paths_that_are_not_unicode_are_shown_with_replacement_characters() {
    let home = bytes(b"/home/\xff");
    assert_eq!(show_path(&home), "/home/\u{fffd}");
    assert_eq!(show_path("/home/u"), "/home/u");
    assert!(missing_keys_warning(&home).starts_with("authorized keys file /home/\u{fffd} does"));
    let env = build_child_env(&home, "u", "/bin/sh", &EnvTable::new(), None);
    assert!(env
        .entries()
        .contains(&("HOME".to_string(), "/home/\u{fffd}".to_string())));
    assert!(env
        .entries()
        .contains(&("SHELL".to_string(), "/bin/sh".to_string())));
    assert_eq!(realpath_reply(home.clone(), None), "/home/\u{fffd}");

    let files = LocalSftp::new(home, Platform::Unix);
    assert_eq!(bytes_of_path(&files.resolve_path("a/../b")), b"/home/\xff/b");
    assert_eq!(
        bytes_of_path(&files.resolve_path("/\u{10ff80}")),
        "/\u{10ff80}".as_bytes()
    );
}

#[test]
fn windows_clients_name_files_as_windows_does() {
    let files = LocalSftp::new("C:\\home".to_string(), Platform::Windows);
    assert_eq!(files.resolve_path("sub\\..\\f"), "C:\\home\\f");
    assert_eq!(files.resolve_path("a/b"), "C:\\home\\a\\b");
    assert_eq!(files.resolve_path("..\\..\\.."), "C:\\");
    assert_eq!(files.resolve_path("C:\\x\\f"), "/x\\f");
    assert_eq!(files.resolve_path("\\x"), "/x");
    assert_eq!(files.resolve_path("D:f"), "D:f");
    assert_eq!(files.resolve_path("."), "C:\\home");

    let unix = LocalSftp::new("/home/u".to_string(), Platform::Unix);
    assert_eq!(unix.resolve_path("sub\\..\\f"), "/home/u/sub\\..\\f");
}

#[test]
fn verbatim_paths_are_rebuilt_part_by_part() {
    let host_key = |value: &str, base: &str| {
        let home = Some("\\\\?\\C:\\Users\\u".to_string());
        let mut config = AppConfig::defaults_for(home.clone(), None, Platform::Windows).unwrap();
        config
            .apply_text_from(&format!("HostKey {value}\n"), base, &home)
            .unwrap();
        config.host_key
    };
    assert_eq!(host_key("keys/k", "\\\\?\\C:\\etc"), "\\\\?\\C:\\etc\\keys\\k");
    assert_eq!(host_key("..\\k", "\\\\?\\C:\\etc"), "\\\\?\\C:\\k");
    assert_eq!(host_key("./a/../k", "\\\\?\\C:\\etc"), "\\\\?\\C:\\etc\\k");
    assert_eq!(host_key("\\k", "\\\\?\\C:\\etc"), "\\\\?\\C:\\k");
    assert_eq!(host_key("D:\\k", "\\\\?\\C:\\etc"), "D:\\k");
    assert_eq!(host_key("k", "\\\\?\\C:\\a/b"), "\\\\?\\C:\\a/b\\k");
    assert_eq!(host_key("~/k/..", "D:\\etc"), "\\\\?\\C:\\Users\\u");

    let base = |path: &str| {
        AppConfig::source_for(Some(path.to_string()), None, None, Platform::Windows)
            .unwrap()
            .base_dir(Platform::Windows)
    };
    assert_eq!(base("\\\\?\\C:\\etc/x\\n.conf"), "\\\\?\\C:\\etc/x");
    assert_eq!(base("\\\\?\\C:\\a/n.conf"), "\\\\?\\C:\\");
    assert_eq!(base("\\\\?\\UNC\\srv\\share\\n.conf"), "\\\\?\\UNC\\srv\\share\\");
}
