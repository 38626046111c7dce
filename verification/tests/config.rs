use narrowd::config::{
    default_config_path, default_config_path_for, expand_home, expand_home_from, AppConfig,
    ConfigError, ExecMode, LogLevel, Platform, SAMPLE_CONFIG,
};
use narrowd::directive::{find_directive, Directive, SpanSetting};
use narrowd::text::{chars_of, IntegerError};
use narrowd::time::Duration;
use narrowd::values::{parse_bool, parse_byte_size, parse_duration, ValueError};

const PACKAGED_EXAMPLE: &'static str = "\
# narrowd sample config
# single-user SSH daemon
Port 2222
ListenAddress 0.0.0.0

HostKey ~/.config/narrowd/ssh_host_ed25519_key
AuthorizedKeysFile ~/.ssh/authorized_keys

Shell /bin/bash
PermitTTY yes
PermitExec yes

Subsystem sftp internal-sftp
AllowTcpForwarding yes
AllowRemoteForwarding yes
GatewayPorts yes

# Public exposure hardening defaults
MaxUnauthConnectionsGlobal 16
MaxUnauthConnectionsPerIp 3
MaxUnauthConnectionsPerSubnet 8
NewConnectionsPerMinutePerIp 12
NewConnectionsBurstPerIp 4
LoginGraceTime 15s
ClientBannerTimeout 5s
KexStartTimeout 5s
MaxAuthAttempts 4
AuthRejectionTime 2s
AuthFailureBanThreshold 8
AuthFailureBanWindow 10m
AuthFailureBanDuration 15m
InactivityTimeout 15m
KeepaliveInterval 30s
KeepaliveMax 3
ChannelBufferSize 32
EventBufferSize 16
WindowSize 1048576
MaximumPacketSize 32768
NoDelay yes
AuthorizedKeysMaxSize 256KiB
AuthorizedKeysMaxEntries 128
AuthorizedKeysReloadInterval 2s

LogLevel info
";

fn defaults() -> AppConfig {
    AppConfig::defaults_for(Some("/home/u".to_string()), None, Platform::Unix).unwrap()
}

#[test]
fn parses_basic_config() {
    let mut config = defaults();
    config
        .apply_text(
            "Port 9922\nListenAddress 127.0.0.1\nPasswordAuthentication no\nLoginGraceTime 20s\nAuthorizedKeysMaxSize 64KiB\n",
            "/tmp",
        )
        .unwrap();

    assert_eq!(config.port, 9922);
    assert_eq!(config.listen_address, "127.0.0.1");
    assert_eq!(config.login_grace_time, Duration::from_secs(20));
    assert_eq!(config.authorized_keys_max_size, 64 * 1024);
    assert_eq!(config.kex_start_timeout, Duration::from_secs(5));
}

#[test]
fn parses_public_exposure_limits() {
    let mut config = defaults();
    config
        .apply_text(
            "MaxUnauthConnectionsGlobal 10\nMaxUnauthConnectionsPerIp 2\nAuthFailureBanThreshold 5\nAuthFailureBanWindow 30s\nAuthorizedKeysReloadInterval 3s\nKexStartTimeout 7s\n",
            "/tmp",
        )
        .unwrap();

    assert_eq!(config.max_unauth_connections_global, 10);
    assert_eq!(config.max_unauth_connections_per_ip, 2);
    assert_eq!(config.auth_failure_ban_threshold, 5);
    assert_eq!(config.auth_failure_ban_window, Duration::from_secs(30));
    assert_eq!(
        config.authorized_keys_reload_interval,
        Duration::from_secs(3)
    );
    assert_eq!(config.kex_start_timeout, Duration::from_secs(7));
}

#[test]
fn rejects_password_auth_enable() {
    let mut config = defaults();
    let err = config
        .apply_text("PasswordAuthentication yes\n", "/tmp")
        .unwrap_err();

    assert!(err.message().contains("unsupported"));
}

#[test]
fn parses_duration_suffixes() {
    assert_eq!(
        parse_duration("1500ms").unwrap(),
        Duration::from_millis(1500)
    );
    assert_eq!(parse_duration("15s").unwrap(), Duration::from_secs(15));
    assert_eq!(parse_duration("2m").unwrap(), Duration::from_secs(120));
    assert_eq!(parse_duration("1h").unwrap(), Duration::from_secs(3600));
}

#[test]
fn parses_byte_sizes() {
    assert_eq!(parse_byte_size("256").unwrap(), 256);
    assert_eq!(parse_byte_size("64KiB").unwrap(), 64 * 1024);
    assert_eq!(parse_byte_size("1MiB").unwrap(), 1024 * 1024);
}

#[test]
fn shell_directive_keeps_bare_command_name() {
    let mut config = defaults();
    config.apply_text("Shell powershell.exe\n", "/tmp").unwrap();

    assert_eq!(config.shell, "powershell.exe");
}

#[test]
fn shell_directive_resolves_relative_path_from_config_dir() {
    let mut config = defaults();
    config
        .apply_text("Shell bin/custom-shell.exe\n", "/tmp")
        .unwrap();

    assert_eq!(config.shell, "/tmp/bin/custom-shell.exe");
}

#[test]
fn packaged_example_matches_sample_config() {
    assert_eq!(
        PACKAGED_EXAMPLE.replace("\r\n", "\n"),
        SAMPLE_CONFIG.replace("\r\n", "\n")
    );
}

#[test]
fn the_sample_config_is_accepted_and_sets_the_defaults() {
    let home = Some("/home/u".to_string());
    let mut config = AppConfig::defaults_for(home.clone(), None, Platform::Unix).unwrap();
    let before = format!("{:?}", config);
    config.apply_text_from(SAMPLE_CONFIG, "/etc", &home).unwrap();

    assert_eq!(format!("{:?}", config), before);
}

#[test]
fn defaults_depend_on_the_platform() {
    let home = Some("/home/u".to_string());
    let unix = AppConfig::defaults_for(home.clone(), None, Platform::Unix).unwrap();
    assert_eq!(unix.port, 2222);
    assert_eq!(unix.host_key, "/home/u/.config/narrowd/ssh_host_ed25519_key");
    assert_eq!(unix.authorized_keys_file, "/home/u/.ssh/authorized_keys");
    assert_eq!(unix.shell, "/bin/bash");
    assert_eq!(unix.exec_mode, ExecMode::ShellLogin);

    let windows =
        AppConfig::defaults_for(home, Some("/cfg".to_string()), Platform::Windows).unwrap();
    assert_eq!(windows.host_key, "/cfg\\narrowd/ssh_host_ed25519_key");
    assert_eq!(windows.shell, "powershell.exe");
    assert_eq!(windows.exec_mode, ExecMode::PowerShell);
}

#[test]
fn defaults_need_a_home_directory() {
    let err = AppConfig::defaults_for(None, Some("/cfg".to_string()), Platform::Unix).unwrap_err();
    assert!(matches!(err, ConfigError::HomeUnknown));
    assert_eq!(err.message(), "unable to determine home directory");
}

#[test]
fn directives_are_found_whatever_their_case() {
    let mut config = defaults();
    config
        .apply_text("pOrT 80 # comment\n\n   # only a comment\nPERMITTTY off\n", "/tmp")
        .unwrap();
    assert_eq!(config.port, 80);
    assert!(!config.permit_tty);

    assert_eq!(
        find_directive(&chars_of("logingracetime")),
        Some(Directive::Span(SpanSetting::LoginGraceTime))
    );
    assert_eq!(find_directive(&chars_of("nothing")), None);
}

#[test]
fn a_missing_value_is_an_error() {
    let err = defaults().apply_text("Port 1\nPort\n", "/tmp").unwrap_err();
    assert!(matches!(err, ConfigError::MissingValue { .. }));
    assert_eq!(err.message(), "missing value for directive Port on line 2");
}

#[test]
fn an_unknown_directive_is_an_error() {
    let err = defaults().apply_text("\nFrobnicate yes\n", "/tmp").unwrap_err();
    assert!(matches!(err, ConfigError::UnsupportedDirective { .. }));
    assert_eq!(err.message(), "unsupported directive frobnicate on line 2");
}

#[test]
fn an_invalid_value_names_the_directive_and_the_line() {
    let err = defaults().apply_text("Port 65536\n", "/tmp").unwrap_err();
    assert_eq!(err.message(), "invalid Port on line 1");
    assert!(matches!(
        err,
        ConfigError::InvalidValue {
            directive: Directive::Port,
            line: 1,
            cause: ValueError::Integer(IntegerError::TooLarge)
        }
    ));

    let err = defaults().apply_text("LogLevel loud\n", "/tmp").unwrap_err();
    assert_eq!(err.message(), "invalid LogLevel on line 1");
}

#[test]
fn public_keys_cannot_be_switched_off() {
    let err = defaults()
        .apply_text("PubkeyAuthentication no\n", "/tmp")
        .unwrap_err();
    assert_eq!(err.message(), "PubkeyAuthentication no is unsupported");
    assert!(matches!(err, ConfigError::PubkeyAuthenticationOff));
    defaults()
        .apply_text("PubkeyAuthentication yes\nPermitOpen any\n", "/tmp")
        .unwrap();
}

#[test]
fn settings_before_a_bad_line_stay() {
    let mut config = defaults();
    assert!(config.apply_text("Port 81\nPort x\nPort 82\n", "/tmp").is_err());
    assert_eq!(config.port, 81);
}

#[test]
fn subsystem_switches_sftp_on() {
    let mut config = defaults();
    config.apply_text("SftpEnabled no\nSubsystem other x\n", "/tmp").unwrap();
    assert!(!config.sftp_enabled);
    config.apply_text("Subsystem sftp internal-sftp\n", "/tmp").unwrap();
    assert!(config.sftp_enabled);
}

#[test]
fn values_with_blanks_are_joined() {
    let mut config = defaults();
    config
        .apply_text("HostKey my   keys/host key\nListenAddress a  b\n", "/etc/narrowd")
        .unwrap();
    assert_eq!(config.host_key, "/etc/narrowd/my keys/host key");
    assert_eq!(config.listen_address, "a b");
}

#[test]
fn the_home_directory_is_expanded() {
    let home = Some("/home/u".to_string());
    assert_eq!(expand_home_from("~", &home, Platform::Unix).unwrap(), "/home/u");
    assert_eq!(expand_home_from("~/x/y", &home, Platform::Unix).unwrap(), "/home/u/x/y");
    assert_eq!(expand_home_from("~/~/x", &home, Platform::Unix).unwrap(), "/home/u/x");
    assert_eq!(expand_home_from("~x", &home, Platform::Unix).unwrap(), "~x");
    assert_eq!(expand_home_from("/a", &None, Platform::Unix).unwrap(), "/a");
    assert!(matches!(
        expand_home_from("~/x", &None, Platform::Unix).unwrap_err(),
        ConfigError::HomeUnknown
    ));

    let mut config = defaults();
    config
        .apply_text_from("AuthorizedKeysFile ~/keys\nShell ~/sh\n", "/etc", &home)
        .unwrap();
    assert_eq!(config.authorized_keys_file, "/home/u/keys");
    assert_eq!(config.shell, "/home/u/sh");
}

#[test]
fn the_machine_has_a_home_and_a_config_directory() {
    let home = expand_home("~", Platform::Unix).unwrap();
    assert!(!home.is_empty());
    assert_eq!(expand_home("~/x", Platform::Unix).unwrap(), format!("{home}/x"));
    let path = default_config_path(Platform::Unix).unwrap();
    assert!(path.ends_with("/narrowd/narrowd.conf"));

    let config = AppConfig::defaults(Platform::Unix).unwrap();
    assert_eq!(config.authorized_keys_file, format!("{home}/.ssh/authorized_keys"));
}

#[test]
fn the_config_file_is_required_only_where_it_was_asked_for() {
    let home = Some("/home/u".to_string());
    let asked = AppConfig::source_for(
        Some("/etc/n.conf".to_string()),
        home.clone(),
        None,
        Platform::Unix,
    )
    .unwrap();
    assert_eq!(asked.path, "/etc/n.conf");
    assert!(asked.required);
    assert_eq!(asked.base_dir(Platform::Unix), "/etc");

    let usual = AppConfig::source_for(None, home.clone(), None, Platform::Unix).unwrap();
    assert_eq!(usual.path, "/home/u/.config/narrowd/narrowd.conf");
    assert!(!usual.required);
    assert_eq!(usual.base_dir(Platform::Unix), "/home/u/.config/narrowd");

    assert_eq!(
        default_config_path_for(home, Some("/cfg".to_string()), Platform::Unix).unwrap(),
        "/cfg/narrowd/narrowd.conf"
    );
    assert!(default_config_path_for(None, None, Platform::Unix).is_err());
    assert!(AppConfig::source(Some("x.conf".to_string()), Platform::Unix).unwrap().required);
}

#[test]
fn log_levels_read_back() {
    for level in [
        LogLevel::Error,
        LogLevel::Warn,
        LogLevel::Info,
        LogLevel::Debug,
        LogLevel::Trace,
    ] {
        assert_eq!(LogLevel::parse(level.label()).unwrap(), level);
    }
    assert_eq!(LogLevel::Debug.to_level_filter(), log::LevelFilter::Debug);
    assert_eq!(
        LogLevel::parse("Loud").unwrap_err().message(),
        "unsupported LogLevel value: loud"
    );
}

#[test]
fn exec_modes_choose_the_flag() {
    assert_eq!(ExecMode::ShellLogin.command_flag(), "-lc");
    assert_eq!(ExecMode::ShellCommand.command_flag(), "-c");
    assert_eq!(ExecMode::PowerShell.command_flag(), "-Command");
    assert_eq!(ExecMode::Cmd.command_flag(), "/C");
    let mut config = defaults();
    config.apply_text("ExecMode powershell\n", "/tmp").unwrap();
    assert_eq!(config.exec_mode, ExecMode::PowerShell);
    assert!(config.apply_text("ExecMode zsh\n", "/tmp").is_err());
}

#[test]
fn booleans_have_several_spellings() {
    assert!(parse_bool(" Yes ").unwrap());
    assert!(parse_bool("1").unwrap());
    assert!(!parse_bool("OFF").unwrap());
    assert_eq!(
        parse_bool("Maybe").unwrap_err().message(),
        "expected yes/no boolean, got maybe"
    );
}

#[test]
fn bad_durations_are_told_apart() {
    assert_eq!(parse_duration("  ").unwrap_err().message(), "duration must not be empty");
    assert_eq!(parse_duration("s").unwrap_err().message(), "duration must start with digits");
    assert_eq!(
        parse_duration("5D").unwrap_err().message(),
        "unsupported duration suffix: d"
    );
    assert!(matches!(
        parse_duration("18446744073709551616").unwrap_err(),
        ValueError::Integer(IntegerError::TooLarge)
    ));
    assert_eq!(
        parse_duration("18446744073709551615h").unwrap(),
        Duration::from_secs(u64::MAX)
    );
}

#[test]
fn bad_byte_sizes_are_told_apart() {
    assert_eq!(parse_byte_size("").unwrap_err().message(), "byte size must not be empty");
    assert_eq!(parse_byte_size("kb").unwrap_err().message(), "byte size must start with digits");
    assert_eq!(
        parse_byte_size("5GiB").unwrap_err().message(),
        "unsupported byte size suffix: gib"
    );
    assert_eq!(
        parse_byte_size("18446744073709551615k").unwrap_err().message(),
        "byte size is too large"
    );
    assert_eq!(parse_byte_size("3k").unwrap(), 3000);
    assert_eq!(parse_byte_size("2MB").unwrap(), 2_000_000);
}

fn windows_defaults() -> AppConfig {
    AppConfig::defaults_for(
        Some("C:\\Users\\u".to_string()),
        None,
        Platform::Windows,
    )
    .unwrap()
}

#[test]
fn windows_paths_are_read_as_windows_reads_them() {
    let config = windows_defaults();
    assert_eq!(
        config.host_key,
        "C:\\Users\\u\\.config\\narrowd/ssh_host_ed25519_key"
    );
    let host_key = |line: &str, base: &str| {
        let mut config = windows_defaults();
        let home = Some("C:\\Users\\u".to_string());
        config.apply_text_from(line, base, &home).unwrap();
        config.host_key
    };
    assert_eq!(host_key("HostKey C:\\k\n", "D:\\etc"), "C:\\k");
    assert_eq!(host_key("HostKey c:/k\n", "D:\\etc"), "c:/k");
    assert_eq!(host_key("HostKey \\\\srv\\keys\\k\n", "D:\\etc"), "\\\\srv\\keys\\k");
    assert_eq!(host_key("HostKey keys\\k\n", "D:\\etc"), "D:\\etc\\keys\\k");
    assert_eq!(host_key("HostKey keys\\k\n", "D:\\"), "D:\\keys\\k");
    assert_eq!(host_key("HostKey k\n", "D:"), "D:k");
    assert_eq!(host_key("HostKey \\keys\\k\n", "D:\\etc"), "D:\\keys\\k");
    assert_eq!(host_key("HostKey E:k\n", "D:\\etc"), "E:k");
    assert_eq!(host_key("HostKey ~/k\n", "D:\\etc"), "C:\\Users\\u\\k");

    let shell = |line: &str| {
        let mut config = windows_defaults();
        config.apply_text(line, "D:\\etc").unwrap();
        config.shell
    };
    assert_eq!(shell("Shell pwsh.exe\n"), "pwsh.exe");
    assert_eq!(shell("Shell bin\\pwsh.exe\n"), "D:\\etc\\bin\\pwsh.exe");
    assert_eq!(shell("Shell C:\\bin\\pwsh.exe\n"), "C:\\bin\\pwsh.exe");

    let source = |path: &str| {
        AppConfig::source_for(Some(path.to_string()), None, None, Platform::Windows)
            .unwrap()
            .base_dir(Platform::Windows)
    };
    assert_eq!(source("C:\\narrowd\\n.conf"), "C:\\narrowd");
    assert_eq!(source("C:\\n.conf"), "C:\\");
    assert_eq!(source("C:n.conf"), "C:");
    assert_eq!(source("n.conf"), "");
    assert_eq!(source("\\\\srv\\share\\n.conf"), "\\\\srv\\share\\");

    // On Unix the same text names a file with an odd name.
    let mut unix = defaults();
    unix.apply_text("HostKey C:\\k\n", "/etc").unwrap();
    assert_eq!(unix.host_key, "/etc/C:\\k");
}
