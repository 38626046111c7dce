//! The daemon's configuration: defaults, the configuration file's language,
//! and the paths that it names.
use vstd::prelude::*;
use vstd::string::*;

use crate::directive;
use crate::directive::{
    CountSetting, Directive, FlagSetting, PathSetting, SpanSetting, WidthSetting,
};
use crate::native_paths;
use crate::native_paths::NativePath;
use crate::paths;
use crate::platform_paths;
use crate::text;
use crate::time::Duration;
use crate::values;
use crate::values::{ValueError, ValueErrorView};
use crate::windows_paths;

verus! {

/// A configuration file that spells out the defaults.
pub const SAMPLE_CONFIG: &'static str = "\
# narrowd sample config
# single-user SSH daemon
Port 2222
ListenAddress 0.0.0.0

HostKey ~/.config/narrowd/ssh_host_ed25519_key
AuthorizedKeysFile ~/.ssh/authorized_keys

Shell /bin/bash
PermitTTY yes
PermitExec yes

Subsystem sftp internal-sftp
AllowTcpForwarding yes
AllowRemoteForwarding yes
GatewayPorts yes

# Public exposure hardening defaults
MaxUnauthConnectionsGlobal 16
MaxUnauthConnectionsPerIp 3
MaxUnauthConnectionsPerSubnet 8
NewConnectionsPerMinutePerIp 12
NewConnectionsBurstPerIp 4
LoginGraceTime 15s
ClientBannerTimeout 5s
KexStartTimeout 5s
MaxAuthAttempts 4
AuthRejectionTime 2s
AuthFailureBanThreshold 8
AuthFailureBanWindow 10m
AuthFailureBanDuration 15m
InactivityTimeout 15m
KeepaliveInterval 30s
KeepaliveMax 3
ChannelBufferSize 32
EventBufferSize 16
WindowSize 1048576
MaximumPacketSize 32768
NoDelay yes
AuthorizedKeysMaxSize 256KiB
AuthorizedKeysMaxEntries 128
AuthorizedKeysReloadInterval 2s

LogLevel info
";

/// The operating system family that the daemon runs on.
#[derive(Clone, Copy, Debug, PartialEq, Eq, Structural)]
pub enum Platform {
    Unix,
    Windows,
}

/// How much the daemon logs.
#[derive(Clone, Copy, Debug, PartialEq, Eq, Structural)]
pub enum LogLevel {
    Error,
    Warn,
    Info,
    Debug,
    Trace,
}

/// The severity threshold of the `log` crate: `Off`, `Error`, `Warn`, `Info`,
/// `Debug` or `Trace`.
#[verifier::external_type_specification]
pub struct ExLevelFilter(log::LevelFilter);

/// The level that `s` names, in any letter case.
pub open spec fn log_level_value(s: Seq<char>) -> Result<LogLevel, ValueErrorView> {
    let w = text::lowered(text::trimmed(s));
    if w == "error"@ {
        Ok(LogLevel::Error)
    } else if w == "warn"@ || w == "warning"@ {
        Ok(LogLevel::Warn)
    } else if w == "info"@ {
        Ok(LogLevel::Info)
    } else if w == "debug"@ {
        Ok(LogLevel::Debug)
    } else if w == "trace"@ {
        Ok(LogLevel::Trace)
    } else {
        Err(ValueErrorView::UnknownLogLevel(w))
    }
}

fn log_level_of(v: &Vec<char>) -> (r: Result<LogLevel, ValueError>)
    ensures
        values::outcome(r) == log_level_value(v@),
{
    let w = text::lowercase(&text::trim(v));
    if text::spells(&w, "error") {
        Ok(LogLevel::Error)
    } else if text::spells(&w, "warn") || text::spells(&w, "warning") {
        Ok(LogLevel::Warn)
    } else if text::spells(&w, "info") {
        Ok(LogLevel::Info)
    } else if text::spells(&w, "debug") {
        Ok(LogLevel::Debug)
    } else if text::spells(&w, "trace") {
        Ok(LogLevel::Trace)
    } else {
        Err(ValueError::UnknownLogLevel(text::string_of(&w)))
    }
}

impl LogLevel {
    pub fn parse(input: &str) -> (r: Result<Self, ValueError>)
        ensures
            values::outcome(r) == log_level_value(input@),
    {
        log_level_of(&text::chars_of(input))
    }

    pub fn to_level_filter(self) -> (r: log::LevelFilter)
        ensures
            r == (match self {
                LogLevel::Error => log::LevelFilter::Error,
                LogLevel::Warn => log::LevelFilter::Warn,
                LogLevel::Info => log::LevelFilter::Info,
                LogLevel::Debug => log::LevelFilter::Debug,
                LogLevel::Trace => log::LevelFilter::Trace,
            }),
    {
        match self {
            LogLevel::Error => log::LevelFilter::Error,
            LogLevel::Warn => log::LevelFilter::Warn,
            LogLevel::Info => log::LevelFilter::Info,
            LogLevel::Debug => log::LevelFilter::Debug,
            LogLevel::Trace => log::LevelFilter::Trace,
        }
    }

    /// The level's name.
    pub open spec fn name(self) -> Seq<char> {
        match self {
            LogLevel::Error => "error"@,
            LogLevel::Warn => "warn"@,
            LogLevel::Info => "info"@,
            LogLevel::Debug => "debug"@,
            LogLevel::Trace => "trace"@,
        }
    }

    pub fn label(self) -> (r: &'static str)
        ensures
            r@ == self.name(),
    {
        match self {
            LogLevel::Error => "error",
            LogLevel::Warn => "warn",
            LogLevel::Info => "info",
            LogLevel::Debug => "debug",
            LogLevel::Trace => "trace",
        }
    }
}

/// A level's name reads back as the level.
pub proof fn law_log_level_reads_back(level: LogLevel)
    ensures
        log_level_value(level.name()) == Ok::<LogLevel, ValueErrorView>(level),
{
    reveal_strlit("error");
    reveal_strlit("warn");
    reveal_strlit("warning");
    reveal_strlit("info");
    reveal_strlit("debug");
    reveal_strlit("trace");
    let s = level.name();
    assert(text::trimmed(s) == s) by {
        reveal_with_fuel(text::trimmed_start, 2);
        reveal_with_fuel(text::trimmed_end, 2);
        assert(!text::whitespace(s[0]));
        assert(!text::whitespace(s.last()));
    }
    assert(text::lowered(s) =~= s);
    assert("error"@[0] != "debug"@[0] && "error"@[0] != "trace"@[0]);
    assert("debug"@[0] != "trace"@[0]);
    assert("warn"@[0] != "info"@[0]);
}

/// How a command line is handed to the shell.
#[derive(Clone, Copy, Debug, PartialEq, Eq, Structural)]
pub enum ExecMode {
    /// A login shell runs the command.
    ShellLogin,
    /// A plain shell runs the command.
    ShellCommand,
    /// PowerShell runs the command.
    PowerShell,
    /// The Windows command processor runs the command.
    Cmd,
}

/// The mode that `s` names, in any letter case.
pub open spec fn exec_mode_value(s: Seq<char>) -> Result<ExecMode, ValueErrorView> {
    let w = text::lowered(text::trimmed(s));
    if w == "shelllogin"@ {
        Ok(ExecMode::ShellLogin)
    } else if w == "shellcommand"@ {
        Ok(ExecMode::ShellCommand)
    } else if w == "powershell"@ {
        Ok(ExecMode::PowerShell)
    } else if w == "cmd"@ {
        Ok(ExecMode::Cmd)
    } else {
        Err(ValueErrorView::UnknownExecMode(w))
    }
}

fn exec_mode_of(v: &Vec<char>) -> (r: Result<ExecMode, ValueError>)
    ensures
        values::outcome(r) == exec_mode_value(v@),
{
    let w = text::lowercase(&text::trim(v));
    if text::spells(&w, "shelllogin") {
        Ok(ExecMode::ShellLogin)
    } else if text::spells(&w, "shellcommand") {
        Ok(ExecMode::ShellCommand)
    } else if text::spells(&w, "powershell") {
        Ok(ExecMode::PowerShell)
    } else if text::spells(&w, "cmd") {
        Ok(ExecMode::Cmd)
    } else {
        Err(ValueError::UnknownExecMode(text::string_of(&w)))
    }
}

impl ExecMode {
    /// The argument after which the shell takes the command line.
    pub open spec fn flag(self) -> Seq<char> {
        match self {
            ExecMode::ShellLogin => "-lc"@,
            ExecMode::ShellCommand => "-c"@,
            ExecMode::PowerShell => "-Command"@,
            ExecMode::Cmd => "/C"@,
        }
    }

    pub fn command_flag(self) -> (r: &'static str)
        ensures
            r@ == self.flag(),
    {
        match self {
            ExecMode::ShellLogin => "-lc",
            ExecMode::ShellCommand => "-c",
            ExecMode::PowerShell => "-Command",
            ExecMode::Cmd => "/C",
        }
    }
}

/// Why a configuration cannot be had.
#[derive(Debug)]
pub enum ConfigError {
    /// The home directory is not known.
    HomeUnknown,
    /// A directive stands on `line` without a value.
    MissingValue { key: String, line: usize },
    /// The value on `line` is none that the directive takes.
    InvalidValue { directive: Directive, line: usize, cause: ValueError },
    /// The configuration asks for logins without public keys.
    PubkeyAuthenticationOff,
    /// The configuration asks for logins with passwords.
    PasswordAuthenticationOn,
    /// `line` holds no directive of the language; `key` is in lower case.
    UnsupportedDirective { key: String, line: usize },
}

/// What a `ConfigError` says.
pub enum ConfigErrorView {
    HomeUnknown,
    MissingValue { key: Seq<char>, line: nat },
    InvalidValue { directive: Directive, line: nat, cause: ValueErrorView },
    PubkeyAuthenticationOff,
    PasswordAuthenticationOn,
    UnsupportedDirective { key: Seq<char>, line: nat },
}

impl View for ConfigError {
    type V = ConfigErrorView;

    open spec fn view(&self) -> ConfigErrorView {
        match self {
            ConfigError::HomeUnknown => ConfigErrorView::HomeUnknown,
            ConfigError::MissingValue { key, line } => ConfigErrorView::MissingValue {
                key: key@,
                line: *line as nat,
            },
            ConfigError::InvalidValue { directive, line, cause } => ConfigErrorView::InvalidValue {
                directive: *directive,
                line: *line as nat,
                cause: cause@,
            },
            ConfigError::PubkeyAuthenticationOff => ConfigErrorView::PubkeyAuthenticationOff,
            ConfigError::PasswordAuthenticationOn => ConfigErrorView::PasswordAuthenticationOn,
            ConfigError::UnsupportedDirective { key, line } =>
                ConfigErrorView::UnsupportedDirective { key: key@, line: *line as nat },
        }
    }
}

impl ConfigErrorView {
    pub open spec fn message(self) -> Seq<char> {
        match self {
            ConfigErrorView::HomeUnknown => "unable to determine home directory"@,
            ConfigErrorView::MissingValue { key, line } => "missing value for directive "@ + key
                + " on line "@ + text::decimal(line),
            ConfigErrorView::InvalidValue { directive, line, cause } => "invalid "@
                + directive.name() + " on line "@ + text::decimal(line),
            ConfigErrorView::PubkeyAuthenticationOff => "PubkeyAuthentication no is unsupported"@,
            ConfigErrorView::PasswordAuthenticationOn =>
                "PasswordAuthentication yes is unsupported"@,
            ConfigErrorView::UnsupportedDirective { key, line } => "unsupported directive "@ + key
                + " on line "@ + text::decimal(line),
        }
    }
}

/// `head`, `name` and the line that they are about.
fn located(head: &str, name: &str, line: usize) -> (r: String)
    ensures
        r@ == head@ + name@ + " on line "@ + text::decimal(line as nat),
{
    let mut out = values::sentence(head, name);
    out.append(" on line ");
    let number = text::decimal_of(line as u64);
    out.append(number.as_str());
    out
}

impl ConfigError {
    /// The error in words; the cause of an invalid value has words of its own.
    pub fn message(&self) -> (r: String)
        ensures
            r@ == self@.message(),
    {
        match self {
            ConfigError::HomeUnknown => String::from_str("unable to determine home directory"),
            ConfigError::MissingValue { key, line } => located(
                "missing value for directive ",
                key.as_str(),
                *line,
            ),
            ConfigError::InvalidValue { directive, line, .. } => located(
                "invalid ",
                directive.label(),
                *line,
            ),
            ConfigError::PubkeyAuthenticationOff => String::from_str(
                "PubkeyAuthentication no is unsupported",
            ),
            ConfigError::PasswordAuthenticationOn => String::from_str(
                "PasswordAuthentication yes is unsupported",
            ),
            ConfigError::UnsupportedDirective { key, line } => located(
                "unsupported directive ",
                key.as_str(),
                *line,
            ),
        }
    }
}

/// The daemon's settings. Paths are kept as text.
#[derive(Clone, Debug)]
pub struct AppConfig {
    /// Whose paths the settings name.
    pub platform: Platform,
    pub listen_address: String,
    pub port: u16,
    pub host_key: String,
    pub authorized_keys_file: String,
    pub shell: String,
    pub exec_mode: ExecMode,
    pub permit_tty: bool,
    pub permit_exec: bool,
    pub sftp_enabled: bool,
    pub allow_tcp_forwarding: bool,
    pub allow_remote_forwarding: bool,
    pub gateway_ports: bool,
    pub max_unauth_connections_global: usize,
    pub max_unauth_connections_per_ip: usize,
    pub max_unauth_connections_per_subnet: usize,
    pub new_connections_per_minute_per_ip: usize,
    pub new_connections_burst_per_ip: usize,
    pub login_grace_time: Duration,
    pub client_banner_timeout: Duration,
    pub kex_start_timeout: Duration,
    pub max_auth_attempts: usize,
    pub auth_rejection_time: Duration,
    pub auth_failure_ban_threshold: usize,
    pub auth_failure_ban_window: Duration,
    pub auth_failure_ban_duration: Duration,
    pub inactivity_timeout: Duration,
    pub keepalive_interval: Duration,
    pub keepalive_max: usize,
    pub channel_buffer_size: usize,
    pub event_buffer_size: usize,
    pub window_size: u32,
    pub maximum_packet_size: u32,
    pub nodelay: bool,
    pub authorized_keys_max_size: usize,
    pub authorized_keys_max_entries: usize,
    pub authorized_keys_reload_interval: Duration,
    pub log_level: LogLevel,
}

/// What an `AppConfig` holds.
pub struct ConfigView {
    pub platform: Platform,
    pub listen_address: Seq<char>,
    pub port: u16,
    pub host_key: Seq<char>,
    pub authorized_keys_file: Seq<char>,
    pub shell: Seq<char>,
    pub exec_mode: ExecMode,
    pub permit_tty: bool,
    pub permit_exec: bool,
    pub sftp_enabled: bool,
    pub allow_tcp_forwarding: bool,
    pub allow_remote_forwarding: bool,
    pub gateway_ports: bool,
    pub max_unauth_connections_global: usize,
    pub max_unauth_connections_per_ip: usize,
    pub max_unauth_connections_per_subnet: usize,
    pub new_connections_per_minute_per_ip: usize,
    pub new_connections_burst_per_ip: usize,
    pub login_grace_time: Duration,
    pub client_banner_timeout: Duration,
    pub kex_start_timeout: Duration,
    pub max_auth_attempts: usize,
    pub auth_rejection_time: Duration,
    pub auth_failure_ban_threshold: usize,
    pub auth_failure_ban_window: Duration,
    pub auth_failure_ban_duration: Duration,
    pub inactivity_timeout: Duration,
    pub keepalive_interval: Duration,
    pub keepalive_max: usize,
    pub channel_buffer_size: usize,
    pub event_buffer_size: usize,
    pub window_size: u32,
    pub maximum_packet_size: u32,
    pub nodelay: bool,
    pub authorized_keys_max_size: usize,
    pub authorized_keys_max_entries: usize,
    pub authorized_keys_reload_interval: Duration,
    pub log_level: LogLevel,
}

impl View for AppConfig {
    type V = ConfigView;

    open spec fn view(&self) -> ConfigView {
        ConfigView {
            platform: self.platform,
            listen_address: self.listen_address@,
            port: self.port,
            host_key: self.host_key@,
            authorized_keys_file: self.authorized_keys_file@,
            shell: self.shell@,
            exec_mode: self.exec_mode,
            permit_tty: self.permit_tty,
            permit_exec: self.permit_exec,
            sftp_enabled: self.sftp_enabled,
            allow_tcp_forwarding: self.allow_tcp_forwarding,
            allow_remote_forwarding: self.allow_remote_forwarding,
            gateway_ports: self.gateway_ports,
            max_unauth_connections_global: self.max_unauth_connections_global,
            max_unauth_connections_per_ip: self.max_unauth_connections_per_ip,
            max_unauth_connections_per_subnet: self.max_unauth_connections_per_subnet,
            new_connections_per_minute_per_ip: self.new_connections_per_minute_per_ip,
            new_connections_burst_per_ip: self.new_connections_burst_per_ip,
            login_grace_time: self.login_grace_time,
            client_banner_timeout: self.client_banner_timeout,
            kex_start_timeout: self.kex_start_timeout,
            max_auth_attempts: self.max_auth_attempts,
            auth_rejection_time: self.auth_rejection_time,
            auth_failure_ban_threshold: self.auth_failure_ban_threshold,
            auth_failure_ban_window: self.auth_failure_ban_window,
            auth_failure_ban_duration: self.auth_failure_ban_duration,
            inactivity_timeout: self.inactivity_timeout,
            keepalive_interval: self.keepalive_interval,
            keepalive_max: self.keepalive_max,
            channel_buffer_size: self.channel_buffer_size,
            event_buffer_size: self.event_buffer_size,
            window_size: self.window_size,
            maximum_packet_size: self.maximum_packet_size,
            nodelay: self.nodelay,
            authorized_keys_max_size: self.authorized_keys_max_size,
            authorized_keys_max_entries: self.authorized_keys_max_entries,
            authorized_keys_reload_interval: self.authorized_keys_reload_interval,
            log_level: self.log_level,
        }
    }
}

/// The directory under which configuration is kept.
pub open spec fn config_root(
    home: Seq<char>,
    config_dir: Option<Seq<char>>,
    platform: Platform,
) -> Seq<char> {
    match config_dir {
        Some(dir) => dir,
        None => platform_paths::appended(home, ".config"@, platform),
    }
}

/// The settings that hold before any file is read.
pub open spec fn default_settings(
    home: Seq<char>,
    config_dir: Option<Seq<char>>,
    platform: Platform,
) -> ConfigView {
    ConfigView {
        platform,
        listen_address: "0.0.0.0"@,
        port: 2222,
        host_key: platform_paths::appended(
            config_root(home, config_dir, platform),
            "narrowd/ssh_host_ed25519_key"@,
            platform,
        ),
        authorized_keys_file: platform_paths::appended(home, ".ssh/authorized_keys"@, platform),
        shell: match platform {
            Platform::Unix => "/bin/bash"@,
            Platform::Windows => "powershell.exe"@,
        },
        exec_mode: match platform {
            Platform::Unix => ExecMode::ShellLogin,
            Platform::Windows => ExecMode::PowerShell,
        },
        permit_tty: true,
        permit_exec: true,
        sftp_enabled: true,
        allow_tcp_forwarding: true,
        allow_remote_forwarding: true,
        gateway_ports: true,
        max_unauth_connections_global: 16,
        max_unauth_connections_per_ip: 3,
        max_unauth_connections_per_subnet: 8,
        new_connections_per_minute_per_ip: 12,
        new_connections_burst_per_ip: 4,
        login_grace_time: Duration { secs: 15, nanos: 0 },
        client_banner_timeout: Duration { secs: 5, nanos: 0 },
        kex_start_timeout: Duration { secs: 5, nanos: 0 },
        max_auth_attempts: 4,
        auth_rejection_time: Duration { secs: 2, nanos: 0 },
        auth_failure_ban_threshold: 8,
        auth_failure_ban_window: Duration { secs: 600, nanos: 0 },
        auth_failure_ban_duration: Duration { secs: 900, nanos: 0 },
        inactivity_timeout: Duration { secs: 900, nanos: 0 },
        keepalive_interval: Duration { secs: 30, nanos: 0 },
        keepalive_max: 3,
        channel_buffer_size: 32,
        event_buffer_size: 16,
        window_size: 1_048_576,
        maximum_packet_size: 32_768,
        nodelay: true,
        authorized_keys_max_size: 262_144,
        authorized_keys_max_entries: 128,
        authorized_keys_reload_interval: Duration { secs: 2, nanos: 0 },
        log_level: LogLevel::Info,
    }
}

/// The text of an optional string.
pub open spec fn text_of(s: Option<String>) -> Option<Seq<char>> {
    match s {
        Some(s) => Some(s@),
        None => None,
    }
}

/// `dirs::home_dir`: the home directory of the user that the process runs as,
/// if the system knows one. The answer rests on the environment, so nothing is
/// claimed of it.
#[verifier::external_body]
fn home_dir() -> (r: Option<NativePath>) {
    match dirs::home_dir() {
        Some(path) => Some(
            match path.into_os_string().into_string() {
                Ok(text) => NativePath::Text(text),
                Err(other) => NativePath::Bytes(other.into_encoded_bytes()),
            },
        ),
        None => None,
    }
}

/// `dirs::config_dir`: the user's configuration directory, if the system knows
/// one. The answer rests on the environment, so nothing is claimed of it.
#[verifier::external_body]
fn config_dir() -> (r: Option<NativePath>) {
    match dirs::config_dir() {
        Some(path) => Some(
            match path.into_os_string().into_string() {
                Ok(text) => NativePath::Text(text),
                Err(other) => NativePath::Bytes(other.into_encoded_bytes()),
            },
        ),
        None => None,
    }
}

/// `tail` as seen from the directory `base`.
fn joined_path(base: &str, tail: &str, platform: Platform) -> (r: String)
    ensures
        r@ == platform_paths::appended(base@, tail@, platform),
{
    text::string_of(
        &platform_paths::join_path(&text::chars_of(base), &text::chars_of(tail), platform),
    )
}

fn config_root_of(home: &str, config_dir: &Option<String>, platform: Platform) -> (r: String)
    ensures
        r@ == config_root(home@, text_of(*config_dir), platform),
{
    match config_dir {
        Some(dir) => String::from_str(dir.as_str()),
        None => joined_path(home, ".config", platform),
    }
}

/// The file that is read where none is asked for, given what the system says
/// of the user's directories.
pub open spec fn default_path(
    home: Option<Seq<char>>,
    config_dir: Option<Seq<char>>,
    platform: Platform,
) -> Result<Seq<char>, ConfigErrorView> {
    match home {
        Some(home) => Ok(
            platform_paths::appended(
                config_root(home, config_dir, platform),
                "narrowd/narrowd.conf"@,
                platform,
            ),
        ),
        None => Err(ConfigErrorView::HomeUnknown),
    }
}

/// What the result `r` stands for.
pub open spec fn path_outcome(r: Result<String, ConfigError>) -> Result<
    Seq<char>,
    ConfigErrorView,
> {
    match r {
        Ok(p) => Ok(p@),
        Err(e) => Err(e@),
    }
}

pub fn default_config_path_for(
    home: Option<String>,
    config_dir: Option<String>,
    platform: Platform,
) -> (r: Result<String, ConfigError>)
    ensures
        path_outcome(r) == default_path(text_of(home), text_of(config_dir), platform),
{
    match home {
        Some(home) => {
            let root = config_root_of(home.as_str(), &config_dir, platform);
            Ok(joined_path(root.as_str(), "narrowd/narrowd.conf", platform))
        },
        None => Err(ConfigError::HomeUnknown),
    }
}

/// The file that is read where none is asked for.
pub fn default_config_path(platform: Platform) -> (r: Result<String, ConfigError>)
    ensures
        exists|home: Option<NativePath>, dir: Option<NativePath>|
            path_outcome(r) == #[trigger] default_path(
                native_paths::known_text(home),
                native_paths::known_text(dir),
                platform,
            ),
{
    let home = native_paths::text_if_known(home_dir());
    let dir = native_paths::text_if_known(config_dir());
    default_config_path_for(home, dir, platform)
}

/// `path` without the `~/` it begins with, however often that is repeated.
pub open spec fn without_tilde(path: Seq<char>) -> Seq<char>
    decreases path.len(),
{
    if text::has_prefix(path, seq!['~', '/']) {
        without_tilde(path.skip(2))
    } else {
        path
    }
}

/// `path` with a leading `~` replaced by the home directory; none where that
/// is wanted and not known. What follows the `~` is taken as the path is shown.
pub open spec fn expanded(
    path: Seq<char>,
    home: Option<Seq<char>>,
    platform: Platform,
) -> Option<Seq<char>> {
    let text = native_paths::shown(path);
    if text == seq!['~'] {
        home
    } else if text::has_prefix(text, seq!['~', '/']) {
        match home {
            Some(home) => Some(
                platform_paths::appended(
                    home,
                    native_paths::quoted(without_tilde(text)),
                    platform,
                ),
            ),
            None => None,
        }
    } else {
        Some(path)
    }
}

fn starts_with_tilde(v: &Vec<char>, from: usize) -> (r: bool)
    requires
        from <= v@.len(),
    ensures
        r == text::has_prefix(v@.skip(from as int), seq!['~', '/']),
{
    let ghost s = v@.skip(from as int);
    if v.len() - from >= 2 && v[from] == '~' && v[from + 1] == '/' {
        assert(s.take(2) =~= seq!['~', '/']);
        true
    } else {
        proof {
            if s.len() >= 2 && s.take(2) == seq!['~', '/'] {
                assert(s.take(2)[0] == s[0]);
                assert(s.take(2)[1] == s[1]);
            }
        }
        false
    }
}

fn expand_home_in(path: Vec<char>, home: &Option<String>, platform: Platform) -> (r: Option<
    Vec<char>,
>)
    ensures
        match r {
            Some(p) => expanded(path@, text_of(*home), platform) == Some(p@),
            None => expanded(path@, text_of(*home), platform) is None,
        },
{
    let text = native_paths::show(&path);
    if text.len() == 1 && text[0] == '~' {
        assert(text@ =~= seq!['~']);
        return match home {
            Some(home) => Some(text::chars_of(home.as_str())),
            None => None,
        };
    }
    assert(text@ != seq!['~']);
    assert(text@.skip(0) =~= text@);
    if !starts_with_tilde(&text, 0) {
        return Some(path);
    }
    match home {
        None => None,
        Some(home) => {
            let mut i: usize = 0;
            while starts_with_tilde(&text, i)
                invariant
                    i <= text@.len(),
                    without_tilde(text@) == without_tilde(text@.skip(i as int)),
                decreases text.len() - i,
            {
                assert(text@.skip(i as int).skip(2) =~= text@.skip(i + 2));
                i = i + 2;
            }
            let rest = text::piece(&text, i, text.len());
            assert(rest@ =~= text@.skip(i as int));
            Some(
                platform_paths::join_path(
                    &text::chars_of(home.as_str()),
                    &native_paths::quote(rest),
                    platform,
                ),
            )
        },
    }
}

/// Replaces a leading `~` of `path` by the home directory that the system
/// tells of.
pub fn expand_home(path: &str, platform: Platform) -> (r: Result<String, ConfigError>)
    ensures
        exists|home: Option<NativePath>|
            path_outcome(r) == #[trigger] expanded_or_unknown(
                path@,
                native_paths::known_text(home),
                platform,
            ),
{
    let home = native_paths::text_if_known(home_dir());
    expand_home_from(path, &home, platform)
}

/// `expanded`, with the error that stands for an unknown home directory.
pub open spec fn expanded_or_unknown(
    path: Seq<char>,
    home: Option<Seq<char>>,
    platform: Platform,
) -> Result<Seq<char>, ConfigErrorView> {
    match expanded(path, home, platform) {
        Some(p) => Ok(p),
        None => Err(ConfigErrorView::HomeUnknown),
    }
}

pub fn expand_home_from(path: &str, home: &Option<String>, platform: Platform) -> (r: Result<
    String,
    ConfigError,
>)
    ensures
        path_outcome(r) == expanded_or_unknown(path@, text_of(*home), platform),
{
    match expand_home_in(text::chars_of(path), home, platform) {
        Some(p) => Ok(text::string_of(&p)),
        None => Err(ConfigError::HomeUnknown),
    }
}

/// The file that a path directive names, as seen from the directory of the
/// configuration file.
pub open spec fn resolved(
    path: Seq<char>,
    base_dir: Seq<char>,
    home: Option<Seq<char>>,
    platform: Platform,
) -> Option<Seq<char>> {
    match expanded(path, home, platform) {
        Some(p) => Some(platform_paths::appended(base_dir, p, platform)),
        None => None,
    }
}

fn resolve_config_path(
    path: Vec<char>,
    base_dir: &Vec<char>,
    home: &Option<String>,
    platform: Platform,
) -> (r: Option<String>)
    ensures
        match r {
            Some(p) => resolved(path@, base_dir@, text_of(*home), platform) == Some(p@),
            None => resolved(path@, base_dir@, text_of(*home), platform) is None,
        },
{
    match expand_home_in(path, home, platform) {
        Some(p) => Some(text::string_of(&platform_paths::join_path(base_dir, &p, platform))),
        None => None,
    }
}

/// The shell that the `Shell` directive names: a bare command name is kept, a
/// path is seen from the directory of the configuration file.
pub open spec fn resolved_shell(
    path: Seq<char>,
    base_dir: Seq<char>,
    home: Option<Seq<char>>,
    platform: Platform,
) -> Option<Seq<char>> {
    match expanded(path, home, platform) {
        Some(p) => if platform_paths::absolute(p, platform) || platform_paths::part_count(
            p,
            platform,
        ) <= 1 {
            Some(p)
        } else {
            Some(platform_paths::appended(base_dir, p, platform))
        },
        None => None,
    }
}

fn resolve_shell_command_or_path(
    path: Vec<char>,
    base_dir: &Vec<char>,
    home: &Option<String>,
    platform: Platform,
) -> (r: Option<String>)
    ensures
        match r {
            Some(p) => resolved_shell(path@, base_dir@, text_of(*home), platform) == Some(p@),
            None => resolved_shell(path@, base_dir@, text_of(*home), platform) is None,
        },
{
    match expand_home_in(path, home, platform) {
        Some(p) => if platform_paths::is_absolute(&p, platform) || platform_paths::is_single(
            &p,
            platform,
        ) {
            Some(text::string_of(&p))
        } else {
            Some(text::string_of(&platform_paths::join_path(base_dir, &p, platform)))
        },
        None => None,
    }
}

impl ConfigView {
    /// These settings with one path replaced.
    pub open spec fn with_path(self, setting: PathSetting, value: Seq<char>) -> ConfigView {
        match setting {
            PathSetting::HostKey => ConfigView { host_key: value, ..self },
            PathSetting::AuthorizedKeysFile => ConfigView { authorized_keys_file: value, ..self },
        }
    }

    /// These settings with one flag replaced.
    pub open spec fn with_flag(self, setting: FlagSetting, value: bool) -> ConfigView {
        match setting {
            FlagSetting::PermitTty => ConfigView { permit_tty: value, ..self },
            FlagSetting::PermitExec => ConfigView { permit_exec: value, ..self },
            FlagSetting::SftpEnabled => ConfigView { sftp_enabled: value, ..self },
            FlagSetting::AllowTcpForwarding => ConfigView { allow_tcp_forwarding: value, ..self },
            FlagSetting::AllowRemoteForwarding => ConfigView { allow_remote_forwarding: value, ..self },
            FlagSetting::GatewayPorts => ConfigView { gateway_ports: value, ..self },
            FlagSetting::NoDelay => ConfigView { nodelay: value, ..self },
        }
    }

    /// These settings with one count replaced.
    pub open spec fn with_count(self, setting: CountSetting, value: usize) -> ConfigView {
        match setting {
            CountSetting::MaxUnauthConnectionsGlobal => ConfigView { max_unauth_connections_global: value, ..self },
            CountSetting::MaxUnauthConnectionsPerIp => ConfigView { max_unauth_connections_per_ip: value, ..self },
            CountSetting::MaxUnauthConnectionsPerSubnet => ConfigView { max_unauth_connections_per_subnet: value, ..self },
            CountSetting::NewConnectionsPerMinutePerIp => ConfigView { new_connections_per_minute_per_ip: value, ..self },
            CountSetting::NewConnectionsBurstPerIp => ConfigView { new_connections_burst_per_ip: value, ..self },
            CountSetting::MaxAuthAttempts => ConfigView { max_auth_attempts: value, ..self },
            CountSetting::AuthFailureBanThreshold => ConfigView { auth_failure_ban_threshold: value, ..self },
            CountSetting::KeepaliveMax => ConfigView { keepalive_max: value, ..self },
            CountSetting::ChannelBufferSize => ConfigView { channel_buffer_size: value, ..self },
            CountSetting::EventBufferSize => ConfigView { event_buffer_size: value, ..self },
            CountSetting::AuthorizedKeysMaxEntries => ConfigView { authorized_keys_max_entries: value, ..self },
        }
    }

    /// These settings with one span of time replaced.
    pub open spec fn with_span(self, setting: SpanSetting, value: Duration) -> ConfigView {
        match setting {
            SpanSetting::LoginGraceTime => ConfigView { login_grace_time: value, ..self },
            SpanSetting::ClientBannerTimeout => ConfigView { client_banner_timeout: value, ..self },
            SpanSetting::KexStartTimeout => ConfigView { kex_start_timeout: value, ..self },
            SpanSetting::AuthRejectionTime => ConfigView { auth_rejection_time: value, ..self },
            SpanSetting::AuthFailureBanWindow => ConfigView { auth_failure_ban_window: value, ..self },
            SpanSetting::AuthFailureBanDuration => ConfigView { auth_failure_ban_duration: value, ..self },
            SpanSetting::InactivityTimeout => ConfigView { inactivity_timeout: value, ..self },
            SpanSetting::KeepaliveInterval => ConfigView { keepalive_interval: value, ..self },
            SpanSetting::AuthorizedKeysReloadInterval => ConfigView { authorized_keys_reload_interval: value, ..self },
        }
    }

    /// These settings with one width replaced.
    pub open spec fn with_width(self, setting: WidthSetting, value: u32) -> ConfigView {
        match setting {
            WidthSetting::WindowSize => ConfigView { window_size: value, ..self },
            WidthSetting::MaximumPacketSize => ConfigView { maximum_packet_size: value, ..self },
        }
    }
}

/// The settings after a directive that sets a value read from the file, and
/// the error where the value cannot be read.
pub open spec fn set_or_invalid<T>(
    before: ConfigView,
    directive: Directive,
    line: nat,
    value: Result<T, ValueErrorView>,
    set: spec_fn(T) -> ConfigView,
) -> (ConfigView, Option<ConfigErrorView>) {
    match value {
        Ok(v) => (set(v), None),
        Err(cause) => (before, Some(ConfigErrorView::InvalidValue { directive, line, cause })),
    }
}

/// The settings after a directive that sets a path.
pub open spec fn set_or_unknown(
    before: ConfigView,
    path: Option<Seq<char>>,
    set: spec_fn(Seq<char>) -> ConfigView,
) -> (ConfigView, Option<ConfigErrorView>) {
    match path {
        Some(p) => (set(p), None),
        None => (before, Some(ConfigErrorView::HomeUnknown)),
    }
}

/// What `directive` with these values does to the settings `c`, and the error
/// that it gives if it gives one.
pub open spec fn directive_outcome(
    c: ConfigView,
    directive: Directive,
    values: Seq<Seq<char>>,
    line: nat,
    base_dir: Seq<char>,
    home: Option<Seq<char>>,
) -> (ConfigView, Option<ConfigErrorView>) {
    match directive {
        Directive::Port => set_or_invalid(
            c,
            directive,
            line,
            values::integer_value(values[0], u16::MAX as nat),
            |n: nat| ConfigView { port: n as u16, ..c },
        ),
        Directive::ListenAddress => (
            ConfigView { listen_address: text::joined(values), ..c },
            None,
        ),
        Directive::Path(setting) => set_or_unknown(
            c,
            resolved(native_paths::quoted(text::joined(values)), base_dir, home, c.platform),
            |p: Seq<char>| c.with_path(setting, p),
        ),
        Directive::Shell => set_or_unknown(
            c,
            resolved_shell(native_paths::quoted(text::joined(values)), base_dir, home, c.platform),
            |p: Seq<char>| ConfigView { shell: p, ..c },
        ),
        Directive::ExecMode => set_or_invalid(
            c,
            directive,
            line,
            exec_mode_value(values[0]),
            |m: ExecMode| ConfigView { exec_mode: m, ..c },
        ),
        Directive::Flag(setting) => set_or_invalid(
            c,
            directive,
            line,
            values::bool_value(values[0]),
            |b: bool| c.with_flag(setting, b),
        ),
        Directive::Subsystem => if values[0] == "sftp"@ {
            (ConfigView { sftp_enabled: true, ..c }, None)
        } else {
            (c, None)
        },
        Directive::Count(setting) => set_or_invalid(
            c,
            directive,
            line,
            values::integer_value(values[0], usize::MAX as nat),
            |n: nat| c.with_count(setting, n as usize),
        ),
        Directive::Span(setting) => set_or_invalid(
            c,
            directive,
            line,
            values::duration_value(values[0]),
            |d: Duration| c.with_span(setting, d),
        ),
        Directive::Width(setting) => set_or_invalid(
            c,
            directive,
            line,
            values::integer_value(values[0], u32::MAX as nat),
            |n: nat| c.with_width(setting, n as u32),
        ),
        Directive::AuthorizedKeysMaxSize => set_or_invalid(
            c,
            directive,
            line,
            values::byte_size_value(values[0]),
            |n: usize| ConfigView { authorized_keys_max_size: n, ..c },
        ),
        Directive::PubkeyAuthentication => match values::bool_value(values[0]) {
            Ok(true) => (c, None),
            Ok(false) => (c, Some(ConfigErrorView::PubkeyAuthenticationOff)),
            Err(cause) => (c, Some(ConfigErrorView::InvalidValue { directive, line, cause })),
        },
        Directive::PasswordAuthentication => match values::bool_value(values[0]) {
            Ok(false) => (c, None),
            Ok(true) => (c, Some(ConfigErrorView::PasswordAuthenticationOn)),
            Err(cause) => (c, Some(ConfigErrorView::InvalidValue { directive, line, cause })),
        },
        Directive::PermitOpen => (c, None),
        Directive::LogLevel => set_or_invalid(
            c,
            directive,
            line,
            log_level_value(values[0]),
            |l: LogLevel| ConfigView { log_level: l, ..c },
        ),
    }
}

/// The words of a line in front of its comment.
pub open spec fn line_words(line: Seq<char>) -> Seq<Seq<char>> {
    text::words_of(line.take(text::find_char(line, '#') as int))
}

/// What the line with this number does to the settings `c`, and the error that
/// it gives if it gives one.
pub open spec fn line_outcome(
    c: ConfigView,
    line: Seq<char>,
    number: nat,
    base_dir: Seq<char>,
    home: Option<Seq<char>>,
) -> (ConfigView, Option<ConfigErrorView>) {
    let words = line_words(line);
    if words.len() == 0 {
        (c, None)
    } else if words.len() == 1 {
        (c, Some(ConfigErrorView::MissingValue { key: words[0], line: number }))
    } else {
        let key = text::lowered(words[0]);
        match directive::directive_of(key) {
            Some(d) => directive_outcome(c, d, words.skip(1), number, base_dir, home),
            None => (c, Some(ConfigErrorView::UnsupportedDirective { key, line: number })),
        }
    }
}

/// What the first `n` lines do to the settings `c`: they are taken in order,
/// until one gives an error.
pub open spec fn lines_outcome(
    c: ConfigView,
    lines: Seq<Seq<char>>,
    n: nat,
    base_dir: Seq<char>,
    home: Option<Seq<char>>,
) -> (ConfigView, Option<ConfigErrorView>)
    decreases n,
{
    if n == 0 {
        (c, None)
    } else {
        let before = lines_outcome(c, lines, (n - 1) as nat, base_dir, home);
        if before.1 is Some {
            before
        } else {
            line_outcome(before.0, lines[n - 1], n, base_dir, home)
        }
    }
}

/// What a configuration text does to the settings `c`, and the error that it
/// gives if it gives one.
pub open spec fn text_outcome(
    c: ConfigView,
    text: Seq<char>,
    base_dir: Seq<char>,
    home: Option<Seq<char>>,
) -> (ConfigView, Option<ConfigErrorView>) {
    let lines = text::split_at_char(text, '\n');
    lines_outcome(c, lines, lines.len(), base_dir, home)
}

/// The error of a result, if it holds one.
pub open spec fn error_of(r: Result<(), ConfigError>) -> Option<ConfigErrorView> {
    match r {
        Ok(_) => None,
        Err(e) => Some(e@),
    }
}

impl AppConfig {
    fn set_path(&mut self, setting: PathSetting, value: String)
        ensures
            final(self)@ == old(self)@.with_path(setting, value@),
    {
        match setting {
            PathSetting::HostKey => {
                self.host_key = value;
            },
            PathSetting::AuthorizedKeysFile => {
                self.authorized_keys_file = value;
            },
        }
    }

    fn set_flag(&mut self, setting: FlagSetting, value: bool)
        ensures
            final(self)@ == old(self)@.with_flag(setting, value),
    {
        match setting {
            FlagSetting::PermitTty => {
                self.permit_tty = value;
            },
            FlagSetting::PermitExec => {
                self.permit_exec = value;
            },
            FlagSetting::SftpEnabled => {
                self.sftp_enabled = value;
            },
            FlagSetting::AllowTcpForwarding => {
                self.allow_tcp_forwarding = value;
            },
            FlagSetting::AllowRemoteForwarding => {
                self.allow_remote_forwarding = value;
            },
            FlagSetting::GatewayPorts => {
                self.gateway_ports = value;
            },
            FlagSetting::NoDelay => {
                self.nodelay = value;
            },
        }
    }

    fn set_count(&mut self, setting: CountSetting, value: usize)
        ensures
            final(self)@ == old(self)@.with_count(setting, value),
    {
        match setting {
            CountSetting::MaxUnauthConnectionsGlobal => {
                self.max_unauth_connections_global = value;
            },
            CountSetting::MaxUnauthConnectionsPerIp => {
                self.max_unauth_connections_per_ip = value;
            },
            CountSetting::MaxUnauthConnectionsPerSubnet => {
                self.max_unauth_connections_per_subnet = value;
            },
            CountSetting::NewConnectionsPerMinutePerIp => {
                self.new_connections_per_minute_per_ip = value;
            },
            CountSetting::NewConnectionsBurstPerIp => {
                self.new_connections_burst_per_ip = value;
            },
            CountSetting::MaxAuthAttempts => {
                self.max_auth_attempts = value;
            },
            CountSetting::AuthFailureBanThreshold => {
                self.auth_failure_ban_threshold = value;
            },
            CountSetting::KeepaliveMax => {
                self.keepalive_max = value;
            },
            CountSetting::ChannelBufferSize => {
                self.channel_buffer_size = value;
            },
            CountSetting::EventBufferSize => {
                self.event_buffer_size = value;
            },
            CountSetting::AuthorizedKeysMaxEntries => {
                self.authorized_keys_max_entries = value;
            },
        }
    }

    fn set_span(&mut self, setting: SpanSetting, value: Duration)
        ensures
            final(self)@ == old(self)@.with_span(setting, value),
    {
        match setting {
            SpanSetting::LoginGraceTime => {
                self.login_grace_time = value;
            },
            SpanSetting::ClientBannerTimeout => {
                self.client_banner_timeout = value;
            },
            SpanSetting::KexStartTimeout => {
                self.kex_start_timeout = value;
            },
            SpanSetting::AuthRejectionTime => {
                self.auth_rejection_time = value;
            },
            SpanSetting::AuthFailureBanWindow => {
                self.auth_failure_ban_window = value;
            },
            SpanSetting::AuthFailureBanDuration => {
                self.auth_failure_ban_duration = value;
            },
            SpanSetting::InactivityTimeout => {
                self.inactivity_timeout = value;
            },
            SpanSetting::KeepaliveInterval => {
                self.keepalive_interval = value;
            },
            SpanSetting::AuthorizedKeysReloadInterval => {
                self.authorized_keys_reload_interval = value;
            },
        }
    }

    fn set_width(&mut self, setting: WidthSetting, value: u32)
        ensures
            final(self)@ == old(self)@.with_width(setting, value),
    {
        match setting {
            WidthSetting::WindowSize => {
                self.window_size = value;
            },
            WidthSetting::MaximumPacketSize => {
                self.maximum_packet_size = value;
            },
        }
    }

    /// The settings that hold before any file is read, given what the system
    /// says of the user's directories.
    pub fn defaults_for(
        home: Option<String>,
        config_dir: Option<String>,
        platform: Platform,
    ) -> (r: Result<Self, ConfigError>)
        ensures
            match home {
                Some(home) => r is Ok && r->Ok_0@ == default_settings(
                    home@,
                    text_of(config_dir),
                    platform,
                ),
                None => r is Err && r->Err_0@ == ConfigErrorView::HomeUnknown,
            },
    {
        let home = match home {
            Some(home) => home,
            None => {
                return Err(ConfigError::HomeUnknown);
            },
        };
        let root = config_root_of(home.as_str(), &config_dir, platform);
        Ok(
            AppConfig {
                platform,
                listen_address: String::from_str("0.0.0.0"),
                port: 2222,
                host_key: joined_path(root.as_str(), "narrowd/ssh_host_ed25519_key", platform),
                authorized_keys_file: joined_path(
                    home.as_str(),
                    ".ssh/authorized_keys",
                    platform,
                ),
                shell: match platform {
                    Platform::Unix => String::from_str("/bin/bash"),
                    Platform::Windows => String::from_str("powershell.exe"),
                },
                exec_mode: match platform {
                    Platform::Unix => ExecMode::ShellLogin,
                    Platform::Windows => ExecMode::PowerShell,
                },
                permit_tty: true,
                permit_exec: true,
                sftp_enabled: true,
                allow_tcp_forwarding: true,
                allow_remote_forwarding: true,
                gateway_ports: true,
                max_unauth_connections_global: 16,
                max_unauth_connections_per_ip: 3,
                max_unauth_connections_per_subnet: 8,
                new_connections_per_minute_per_ip: 12,
                new_connections_burst_per_ip: 4,
                login_grace_time: Duration::from_secs(15),
                client_banner_timeout: Duration::from_secs(5),
                kex_start_timeout: Duration::from_secs(5),
                max_auth_attempts: 4,
                auth_rejection_time: Duration::from_secs(2),
                auth_failure_ban_threshold: 8,
                auth_failure_ban_window: Duration::from_secs(600),
                auth_failure_ban_duration: Duration::from_secs(900),
                inactivity_timeout: Duration::from_secs(900),
                keepalive_interval: Duration::from_secs(30),
                keepalive_max: 3,
                channel_buffer_size: 32,
                event_buffer_size: 16,
                window_size: 1_048_576,
                maximum_packet_size: 32_768,
                nodelay: true,
                authorized_keys_max_size: 262_144,
                authorized_keys_max_entries: 128,
                authorized_keys_reload_interval: Duration::from_secs(2),
                log_level: LogLevel::Info,
            },
        )
    }

    /// The settings that hold before any file is read.
    pub fn defaults(platform: Platform) -> (r: Result<Self, ConfigError>)
        ensures
            match r {
                Ok(c) => exists|home: NativePath, dir: Option<NativePath>|
                    c@ == #[trigger] default_settings(
                        native_paths::path_text(home),
                        native_paths::known_text(dir),
                        platform,
                    ),
                Err(e) => e@ == ConfigErrorView::HomeUnknown,
            },
    {
        let home = native_paths::text_if_known(home_dir());
        let dir = native_paths::text_if_known(config_dir());
        Self::defaults_for(home, dir, platform)
    }

    fn apply_directive(
        &mut self,
        directive: Directive,
        words: &Vec<Vec<char>>,
        line: usize,
        base_dir: &Vec<char>,
        home: &Option<String>,
    ) -> (r: Result<(), ConfigError>)
        requires
            words@.len() >= 2,
        ensures
            (final(self)@, error_of(r)) == directive_outcome(
                old(self)@,
                directive,
                text::texts(words@).skip(1),
                line as nat,
                base_dir@,
                text_of(*home),
            ),
    {
        let ghost c = self@;
        let ghost vals = text::texts(words@).skip(1);
        let value = &words[1];
        assert(vals[0] == value@);
        match directive {
            Directive::Port => match values::parse_integer(value, u16::MAX as u64) {
                Ok(n) => {
                    self.port = n as u16;
                },
                Err(cause) => {
                    return Err(ConfigError::InvalidValue { directive, line, cause });
                },
            },
            Directive::ListenAddress => {
                self.listen_address = text::string_of(&values_joined(words));
            },
            Directive::Path(setting) => match resolve_config_path(
                native_paths::quote(values_joined(words)),
                base_dir,
                home,
                self.platform,
            ) {
                Some(p) => {
                    self.set_path(setting, p);
                },
                None => {
                    return Err(ConfigError::HomeUnknown);
                },
            },
            Directive::Shell => match resolve_shell_command_or_path(
                native_paths::quote(values_joined(words)),
                base_dir,
                home,
                self.platform,
            ) {
                Some(p) => {
                    self.shell = p;
                },
                None => {
                    return Err(ConfigError::HomeUnknown);
                },
            },
            Directive::ExecMode => match exec_mode_of(value) {
                Ok(mode) => {
                    self.exec_mode = mode;
                },
                Err(cause) => {
                    return Err(ConfigError::InvalidValue { directive, line, cause });
                },
            },
            Directive::Flag(setting) => match values::bool_of(value) {
                Ok(on) => {
                    self.set_flag(setting, on);
                },
                Err(cause) => {
                    return Err(ConfigError::InvalidValue { directive, line, cause });
                },
            },
            Directive::Subsystem => {
                if text::spells(value, "sftp") {
                    self.sftp_enabled = true;
                }
            },
            Directive::Count(setting) => match values::parse_integer(value, usize::MAX as u64) {
                Ok(n) => {
                    self.set_count(setting, n as usize);
                },
                Err(cause) => {
                    return Err(ConfigError::InvalidValue { directive, line, cause });
                },
            },
            Directive::Span(setting) => match values::duration_of(value) {
                Ok(span) => {
                    self.set_span(setting, span);
                },
                Err(cause) => {
                    return Err(ConfigError::InvalidValue { directive, line, cause });
                },
            },
            Directive::Width(setting) => match values::parse_integer(value, u32::MAX as u64) {
                Ok(n) => {
                    self.set_width(setting, n as u32);
                },
                Err(cause) => {
                    return Err(ConfigError::InvalidValue { directive, line, cause });
                },
            },
            Directive::AuthorizedKeysMaxSize => match values::byte_size_of(value) {
                Ok(n) => {
                    self.authorized_keys_max_size = n;
                },
                Err(cause) => {
                    return Err(ConfigError::InvalidValue { directive, line, cause });
                },
            },
            Directive::PubkeyAuthentication => match values::bool_of(value) {
                Ok(on) => {
                    if !on {
                        return Err(ConfigError::PubkeyAuthenticationOff);
                    }
                },
                Err(cause) => {
                    return Err(ConfigError::InvalidValue { directive, line, cause });
                },
            },
            Directive::PasswordAuthentication => match values::bool_of(value) {
                Ok(on) => {
                    if on {
                        return Err(ConfigError::PasswordAuthenticationOn);
                    }
                },
                Err(cause) => {
                    return Err(ConfigError::InvalidValue { directive, line, cause });
                },
            },
            Directive::PermitOpen => {},
            Directive::LogLevel => match log_level_of(value) {
                Ok(level) => {
                    self.log_level = level;
                },
                Err(cause) => {
                    return Err(ConfigError::InvalidValue { directive, line, cause });
                },
            },
        }
        Ok(())
    }

    fn apply_line(
        &mut self,
        line: &Vec<char>,
        number: usize,
        base_dir: &Vec<char>,
        home: &Option<String>,
    ) -> (r: Result<(), ConfigError>)
        ensures
            (final(self)@, error_of(r)) == line_outcome(
                old(self)@,
                line@,
                number as nat,
                base_dir@,
                text_of(*home),
            ),
    {
        assert(line@.skip(0) =~= line@);
        let end = text::position_of(line, 0, '#');
        let kept = text::piece(line, 0, end);
        assert(kept@ =~= line@.take(end as int));
        let words = text::words(&kept);
        assert(text::texts(words@) == line_words(line@));
        if words.len() == 0 {
            return Ok(());
        }
        assert(text::texts(words@)[0] == words@[0]@);
        if words.len() == 1 {
            return Err(
                ConfigError::MissingValue { key: text::string_of(&words[0]), line: number },
            );
        }
        let key = text::lowercase(&words[0]);
        match directive::find_directive(&key) {
            Some(d) => self.apply_directive(d, &words, number, base_dir, home),
            None => Err(
                ConfigError::UnsupportedDirective { key: text::string_of(&key), line: number },
            ),
        }
    }

    /// Takes the settings of a configuration text whose file stands in
    /// `base_dir`, given the home directory. The lines in front of the first
    /// one that gives an error keep their effect.
    pub fn apply_text_from(&mut self, text: &str, base_dir: &str, home: &Option<String>) -> (r:
        Result<(), ConfigError>)
        ensures
            (final(self)@, error_of(r)) == text_outcome(
                old(self)@,
                text@,
                base_dir@,
                text_of(*home),
            ),
    {
        let base = text::chars_of(base_dir);
        let lines = text::split(&text::chars_of(text), '\n');
        let ghost all = text::texts(lines@);
        let ghost c = self@;
        let ghost h = text_of(*home);
        let mut i: usize = 0;
        while i < lines.len()
            invariant
                i <= lines@.len(),
                c == old(self)@,
                base@ == base_dir@,
                all == text::texts(lines@),
                all == text::split_at_char(text@, '\n'),
                h == text_of(*home),
                (self@, None::<ConfigErrorView>) == lines_outcome(c, all, i as nat, base@, h),
            decreases lines.len() - i,
        {
            assert(all[i as int] == lines@[i as int]@);
            let r = self.apply_line(&lines[i], i + 1, &base, home);
            i = i + 1;
            match r {
                Ok(_) => {},
                Err(e) => {
                    proof {
                        lemma_lines_error_stays(c, all, i as nat, all.len(), base@, h);
                    }
                    return Err(e);
                },
            }
        }
        Ok(())
    }

    /// Takes the settings of a configuration text whose file stands in
    /// `base_dir`; the home directory is the one that the system tells of.
    pub fn apply_text(&mut self, text: &str, base_dir: &str) -> (r: Result<(), ConfigError>)
        ensures
            exists|home: Option<NativePath>|
                (final(self)@, error_of(r)) == #[trigger] text_outcome(
                    old(self)@,
                    text@,
                    base_dir@,
                    native_paths::known_text(home),
                ),
    {
        let home = native_paths::text_if_known(home_dir());
        self.apply_text_from(text, base_dir, &home)
    }
}

/// The values of a directive, all but its first word, as one text.
fn values_joined(words: &Vec<Vec<char>>) -> (r: Vec<char>)
    requires
        words@.len() >= 1,
    ensures
        r@ == text::joined(text::texts(words@).skip(1)),
{
    let mut rest: Vec<Vec<char>> = Vec::new();
    let mut i: usize = 1;
    while i < words.len()
        invariant
            1 <= i <= words@.len(),
            rest@.len() == i - 1,
            forall|j: int| 0 <= j < i - 1 ==> (#[trigger] rest@[j])@ == words@[j + 1]@,
        decreases words.len() - i,
    {
        rest.push(text::piece(&words[i], 0, words[i].len()));
        assert(rest@[i - 1]@ =~= words@[i as int]@);
        i = i + 1;
    }
    assert(text::texts(rest@) =~= text::texts(words@).skip(1));
    text::join(&rest)
}

/// Once a line gives an error, the rest of the text is not looked at.
proof fn lemma_lines_error_stays(
    c: ConfigView,
    lines: Seq<Seq<char>>,
    m: nat,
    n: nat,
    base_dir: Seq<char>,
    home: Option<Seq<char>>,
)
    requires
        m <= n,
        lines_outcome(c, lines, m, base_dir, home).1 is Some,
    ensures
        lines_outcome(c, lines, n, base_dir, home) == lines_outcome(c, lines, m, base_dir, home),
    decreases n,
{
    if m < n {
        lemma_lines_error_stays(c, lines, m, (n - 1) as nat, base_dir, home);
    }
}

/// A configuration file to read.
#[derive(Debug)]
pub struct ConfigSource {
    pub path: String,
    /// Whether the file was asked for; one that was not is read only if it
    /// exists.
    pub required: bool,
}

/// The file to read: the one that was asked for, else the default one.
pub open spec fn source_path(
    requested: Option<Seq<char>>,
    home: Option<Seq<char>>,
    config_dir: Option<Seq<char>>,
    platform: Platform,
) -> Result<Seq<char>, ConfigErrorView> {
    match requested {
        Some(path) => expanded_or_unknown(path, home, platform),
        None => default_path(home, config_dir, platform),
    }
}

/// Whether `r` names the file to read, or why there is none.
pub open spec fn names_source(
    r: Result<ConfigSource, ConfigError>,
    requested: Option<Seq<char>>,
    home: Option<Seq<char>>,
    config_dir: Option<Seq<char>>,
    platform: Platform,
) -> bool {
    match r {
        Ok(source) => {
            &&& source_path(requested, home, config_dir, platform) == Ok::<
                Seq<char>,
                ConfigErrorView,
            >(source.path@)
            &&& source.required == (requested is Some)
        },
        Err(e) => source_path(requested, home, config_dir, platform) == Err::<
            Seq<char>,
            ConfigErrorView,
        >(e@),
    }
}

impl AppConfig {
    /// Finds the configuration file, given what the system says of the user's
    /// directories.
    pub fn source_for(
        requested: Option<String>,
        home: Option<String>,
        config_dir: Option<String>,
        platform: Platform,
    ) -> (r: Result<ConfigSource, ConfigError>)
        ensures
            names_source(r, text_of(requested), text_of(home), text_of(config_dir), platform),
    {
        match requested {
            Some(path) => match expand_home_from(path.as_str(), &home, platform) {
                Ok(path) => Ok(ConfigSource { path, required: true }),
                Err(e) => Err(e),
            },
            None => match default_config_path_for(home, config_dir, platform) {
                Ok(path) => Ok(ConfigSource { path, required: false }),
                Err(e) => Err(e),
            },
        }
    }

    /// Finds the configuration file.
    pub fn source(requested: Option<String>, platform: Platform) -> (r: Result<
        ConfigSource,
        ConfigError,
    >)
        ensures
            exists|home: Option<NativePath>, dir: Option<NativePath>| #[trigger]
                names_source(
                    r,
                    text_of(requested),
                    native_paths::known_text(home),
                    native_paths::known_text(dir),
                    platform,
                ),
    {
        let home = native_paths::text_if_known(home_dir());
        let dir = native_paths::text_if_known(config_dir());
        Self::source_for(requested, home, dir, platform)
    }
}

impl ConfigSource {
    /// The directory that the paths in the file are seen from.
    pub open spec fn base(self, platform: Platform) -> Seq<char> {
        match platform_paths::parent_of(self.path@, platform) {
            Some(dir) => dir,
            None => "."@,
        }
    }

    pub fn base_dir(&self, platform: Platform) -> (r: String)
        ensures
            r@ == self.base(platform),
    {
        match platform_paths::parent_path(&text::chars_of(self.path.as_str()), platform) {
            Some(dir) => text::string_of(&dir),
            None => String::from_str("."),
        }
    }
}

/// The directive and the values that a line holds, where it holds both.
pub open spec fn line_directive(line: Seq<char>) -> Option<(Directive, Seq<Seq<char>>)> {
    let words = line_words(line);
    if words.len() < 2 {
        None
    } else {
        match directive::directive_of(text::lowered(words[0])) {
            Some(d) => Some((d, words.skip(1))),
            None => None,
        }
    }
}

/// No configuration turns password logins on or public keys off: a text with a
/// line that asks for either is refused.
pub proof fn law_only_public_keys(
    c: ConfigView,
    text: Seq<char>,
    i: int,
    base_dir: Seq<char>,
    home: Option<Seq<char>>,
)
    requires
        0 <= i < text::split_at_char(text, '\n').len(),
        line_directive(text::split_at_char(text, '\n')[i]) matches Some((d, values)) && {
            ||| d == Directive::PasswordAuthentication && values::bool_value(values[0]) == Ok::<
                bool,
                ValueErrorView,
            >(true)
            ||| d == Directive::PubkeyAuthentication && values::bool_value(values[0]) == Ok::<
                bool,
                ValueErrorView,
            >(false)
        },
    ensures
        text_outcome(c, text, base_dir, home).1 is Some,
{
    let lines = text::split_at_char(text, '\n');
    let n = (i + 1) as nat;
    let before = lines_outcome(c, lines, i as nat, base_dir, home);
    assert(lines_outcome(c, lines, n, base_dir, home).1 is Some);
    lemma_lines_error_stays(c, lines, n, lines.len(), base_dir, home);
}

/// A text of blank lines and comments changes nothing.
pub proof fn law_comments_change_nothing(
    c: ConfigView,
    text: Seq<char>,
    base_dir: Seq<char>,
    home: Option<Seq<char>>,
)
    requires
        forall|i: int|
            0 <= i < text::split_at_char(text, '\n').len() ==> line_words(
                #[trigger] text::split_at_char(text, '\n')[i],
            ).len() == 0,
    ensures
        text_outcome(c, text, base_dir, home) == (c, None::<ConfigErrorView>),
{
    let lines = text::split_at_char(text, '\n');
    lemma_blank_lines(c, lines, lines.len(), base_dir, home);
}

proof fn lemma_blank_lines(
    c: ConfigView,
    lines: Seq<Seq<char>>,
    n: nat,
    base_dir: Seq<char>,
    home: Option<Seq<char>>,
)
    requires
        n <= lines.len(),
        forall|i: int| 0 <= i < lines.len() ==> line_words(#[trigger] lines[i]).len() == 0,
    ensures
        lines_outcome(c, lines, n, base_dir, home) == (c, None::<ConfigErrorView>),
    decreases n,
{
    if n > 0 {
        lemma_blank_lines(c, lines, (n - 1) as nat, base_dir, home);
        assert(line_words(lines[n - 1]).len() == 0);
    }
}

/// Whether a line names a path under the home directory.
pub open spec fn names_home(line: Seq<char>) -> bool {
    line_directive(line) matches Some((d, values)) && (d is Path || d is Shell) && {
        let p = native_paths::shown(native_paths::quoted(text::joined(values)));
        p == seq!['~'] || text::has_prefix(p, seq!['~', '/'])
    }
}

/// The home directory matters only to a text that names a path under it.
pub proof fn law_home_matters_only_under_tilde(
    c: ConfigView,
    text: Seq<char>,
    base_dir: Seq<char>,
    home: Option<Seq<char>>,
    other: Option<Seq<char>>,
)
    requires
        forall|i: int|
            0 <= i < text::split_at_char(text, '\n').len() ==> !names_home(
                #[trigger] text::split_at_char(text, '\n')[i],
            ),
    ensures
        text_outcome(c, text, base_dir, home) == text_outcome(c, text, base_dir, other),
{
    let lines = text::split_at_char(text, '\n');
    lemma_home_unused(c, lines, lines.len(), base_dir, home, other);
}

proof fn lemma_home_unused(
    c: ConfigView,
    lines: Seq<Seq<char>>,
    n: nat,
    base_dir: Seq<char>,
    home: Option<Seq<char>>,
    other: Option<Seq<char>>,
)
    requires
        n <= lines.len(),
        forall|i: int| 0 <= i < lines.len() ==> !names_home(#[trigger] lines[i]),
    ensures
        lines_outcome(c, lines, n, base_dir, home) == lines_outcome(c, lines, n, base_dir, other),
    decreases n,
{
    if n > 0 {
        lemma_home_unused(c, lines, (n - 1) as nat, base_dir, home, other);
        assert(!names_home(lines[n - 1]));
    }
}

/// A line that names a flag sets that flag, to the truth value behind it, and
/// changes nothing else.
pub proof fn law_flag_lines_set_their_own_flag(
    c: ConfigView,
    line: Seq<char>,
    number: nat,
    base_dir: Seq<char>,
    home: Option<Seq<char>>,
    b: bool,
)
    requires
        line_words(line).len() >= 2,
        values::bool_value(line_words(line)[1]) == Ok::<bool, ValueErrorView>(b),
    ensures
        ({
            let key = text::lowered(line_words(line)[0]);
            let outcome = line_outcome(c, line, number, base_dir, home);
            &&& key == text::lowered("PermitTTY"@) ==> outcome == (
                ConfigView { permit_tty: b, ..c },
                None::<ConfigErrorView>,
            )
            &&& key == text::lowered("PermitExec"@) ==> outcome == (
                ConfigView { permit_exec: b, ..c },
                None::<ConfigErrorView>,
            )
            &&& key == text::lowered("SftpEnabled"@) ==> outcome == (
                ConfigView { sftp_enabled: b, ..c },
                None::<ConfigErrorView>,
            )
            &&& key == text::lowered("AllowTcpForwarding"@) ==> outcome == (
                ConfigView { allow_tcp_forwarding: b, ..c },
                None::<ConfigErrorView>,
            )
            &&& key == text::lowered("AllowRemoteForwarding"@) ==> outcome == (
                ConfigView { allow_remote_forwarding: b, ..c },
                None::<ConfigErrorView>,
            )
            &&& key == text::lowered("GatewayPorts"@) ==> outcome == (
                ConfigView { gateway_ports: b, ..c },
                None::<ConfigErrorView>,
            )
            &&& key == text::lowered("NoDelay"@) ==> outcome == (
                ConfigView { nodelay: b, ..c },
                None::<ConfigErrorView>,
            )
        }),
{
    let words = line_words(line);
    let key = text::lowered(words[0]);
    assert(words.skip(1)[0] == words[1]);
    if key == text::lowered("PermitTTY"@) {
        directive::law_directive_found_by_name(Directive::Flag(FlagSetting::PermitTty), words[0]);
    }
    if key == text::lowered("PermitExec"@) {
        directive::law_directive_found_by_name(Directive::Flag(FlagSetting::PermitExec), words[0]);
    }
    if key == text::lowered("SftpEnabled"@) {
        directive::law_directive_found_by_name(Directive::Flag(FlagSetting::SftpEnabled), words[0]);
    }
    if key == text::lowered("AllowTcpForwarding"@) {
        directive::law_directive_found_by_name(Directive::Flag(FlagSetting::AllowTcpForwarding), words[0]);
    }
    if key == text::lowered("AllowRemoteForwarding"@) {
        directive::law_directive_found_by_name(Directive::Flag(FlagSetting::AllowRemoteForwarding), words[0]);
    }
    if key == text::lowered("GatewayPorts"@) {
        directive::law_directive_found_by_name(Directive::Flag(FlagSetting::GatewayPorts), words[0]);
    }
    if key == text::lowered("NoDelay"@) {
        directive::law_directive_found_by_name(Directive::Flag(FlagSetting::NoDelay), words[0]);
    }
}

/// A line that names a count sets that count, to the number behind it, and
/// changes nothing else.
pub proof fn law_count_lines_set_their_own_count(
    c: ConfigView,
    line: Seq<char>,
    number: nat,
    base_dir: Seq<char>,
    home: Option<Seq<char>>,
    n: usize,
)
    requires
        line_words(line).len() >= 2,
        values::integer_value(line_words(line)[1], usize::MAX as nat) == Ok::<nat, ValueErrorView>(
            n as nat,
        ),
    ensures
        ({
            let key = text::lowered(line_words(line)[0]);
            let outcome = line_outcome(c, line, number, base_dir, home);
            &&& key == text::lowered("MaxUnauthConnectionsGlobal"@) ==> outcome == (
                ConfigView { max_unauth_connections_global: n, ..c },
                None::<ConfigErrorView>,
            )
            &&& key == text::lowered("MaxUnauthConnectionsPerIp"@) ==> outcome == (
                ConfigView { max_unauth_connections_per_ip: n, ..c },
                None::<ConfigErrorView>,
            )
            &&& key == text::lowered("MaxUnauthConnectionsPerSubnet"@) ==> outcome == (
                ConfigView { max_unauth_connections_per_subnet: n, ..c },
                None::<ConfigErrorView>,
            )
            &&& key == text::lowered("NewConnectionsPerMinutePerIp"@) ==> outcome == (
                ConfigView { new_connections_per_minute_per_ip: n, ..c },
                None::<ConfigErrorView>,
            )
            &&& key == text::lowered("NewConnectionsBurstPerIp"@) ==> outcome == (
                ConfigView { new_connections_burst_per_ip: n, ..c },
                None::<ConfigErrorView>,
            )
            &&& key == text::lowered("MaxAuthAttempts"@) ==> outcome == (
                ConfigView { max_auth_attempts: n, ..c },
                None::<ConfigErrorView>,
            )
            &&& key == text::lowered("AuthFailureBanThreshold"@) ==> outcome == (
                ConfigView { auth_failure_ban_threshold: n, ..c },
                None::<ConfigErrorView>,
            )
            &&& key == text::lowered("KeepaliveMax"@) ==> outcome == (
                ConfigView { keepalive_max: n, ..c },
                None::<ConfigErrorView>,
            )
            &&& key == text::lowered("ChannelBufferSize"@) ==> outcome == (
                ConfigView { channel_buffer_size: n, ..c },
                None::<ConfigErrorView>,
            )
            &&& key == text::lowered("EventBufferSize"@) ==> outcome == (
                ConfigView { event_buffer_size: n, ..c },
                None::<ConfigErrorView>,
            )
            &&& key == text::lowered("AuthorizedKeysMaxEntries"@) ==> outcome == (
                ConfigView { authorized_keys_max_entries: n, ..c },
                None::<ConfigErrorView>,
            )
        }),
{
    let words = line_words(line);
    let key = text::lowered(words[0]);
    assert(words.skip(1)[0] == words[1]);
    if key == text::lowered("MaxUnauthConnectionsGlobal"@) {
        directive::law_directive_found_by_name(Directive::Count(CountSetting::MaxUnauthConnectionsGlobal), words[0]);
    }
    if key == text::lowered("MaxUnauthConnectionsPerIp"@) {
        directive::law_directive_found_by_name(Directive::Count(CountSetting::MaxUnauthConnectionsPerIp), words[0]);
    }
    if key == text::lowered("MaxUnauthConnectionsPerSubnet"@) {
        directive::law_directive_found_by_name(Directive::Count(CountSetting::MaxUnauthConnectionsPerSubnet), words[0]);
    }
    if key == text::lowered("NewConnectionsPerMinutePerIp"@) {
        directive::law_directive_found_by_name(Directive::Count(CountSetting::NewConnectionsPerMinutePerIp), words[0]);
    }
    if key == text::lowered("NewConnectionsBurstPerIp"@) {
        directive::law_directive_found_by_name(Directive::Count(CountSetting::NewConnectionsBurstPerIp), words[0]);
    }
    if key == text::lowered("MaxAuthAttempts"@) {
        directive::law_directive_found_by_name(Directive::Count(CountSetting::MaxAuthAttempts), words[0]);
    }
    if key == text::lowered("AuthFailureBanThreshold"@) {
        directive::law_directive_found_by_name(Directive::Count(CountSetting::AuthFailureBanThreshold), words[0]);
    }
    if key == text::lowered("KeepaliveMax"@) {
        directive::law_directive_found_by_name(Directive::Count(CountSetting::KeepaliveMax), words[0]);
    }
    if key == text::lowered("ChannelBufferSize"@) {
        directive::law_directive_found_by_name(Directive::Count(CountSetting::ChannelBufferSize), words[0]);
    }
    if key == text::lowered("EventBufferSize"@) {
        directive::law_directive_found_by_name(Directive::Count(CountSetting::EventBufferSize), words[0]);
    }
    if key == text::lowered("AuthorizedKeysMaxEntries"@) {
        directive::law_directive_found_by_name(Directive::Count(CountSetting::AuthorizedKeysMaxEntries), words[0]);
    }
}

/// A line that names a span of time sets that one, to the span behind it, and
/// changes nothing else.
pub proof fn law_span_lines_set_their_own_span(
    c: ConfigView,
    line: Seq<char>,
    number: nat,
    base_dir: Seq<char>,
    home: Option<Seq<char>>,
    d: Duration,
)
    requires
        line_words(line).len() >= 2,
        values::duration_value(line_words(line)[1]) == Ok::<Duration, ValueErrorView>(d),
    ensures
        ({
            let key = text::lowered(line_words(line)[0]);
            let outcome = line_outcome(c, line, number, base_dir, home);
            &&& key == text::lowered("LoginGraceTime"@) ==> outcome == (
                ConfigView { login_grace_time: d, ..c },
                None::<ConfigErrorView>,
            )
            &&& key == text::lowered("ClientBannerTimeout"@) ==> outcome == (
                ConfigView { client_banner_timeout: d, ..c },
                None::<ConfigErrorView>,
            )
            &&& key == text::lowered("KexStartTimeout"@) ==> outcome == (
                ConfigView { kex_start_timeout: d, ..c },
                None::<ConfigErrorView>,
            )
            &&& key == text::lowered("AuthRejectionTime"@) ==> outcome == (
                ConfigView { auth_rejection_time: d, ..c },
                None::<ConfigErrorView>,
            )
            &&& key == text::lowered("AuthFailureBanWindow"@) ==> outcome == (
                ConfigView { auth_failure_ban_window: d, ..c },
                None::<ConfigErrorView>,
            )
            &&& key == text::lowered("AuthFailureBanDuration"@) ==> outcome == (
                ConfigView { auth_failure_ban_duration: d, ..c },
                None::<ConfigErrorView>,
            )
            &&& key == text::lowered("InactivityTimeout"@) ==> outcome == (
                ConfigView { inactivity_timeout: d, ..c },
                None::<ConfigErrorView>,
            )
            &&& key == text::lowered("KeepaliveInterval"@) ==> outcome == (
                ConfigView { keepalive_interval: d, ..c },
                None::<ConfigErrorView>,
            )
            &&& key == text::lowered("AuthorizedKeysReloadInterval"@) ==> outcome == (
                ConfigView { authorized_keys_reload_interval: d, ..c },
                None::<ConfigErrorView>,
            )
        }),
{
    let words = line_words(line);
    let key = text::lowered(words[0]);
    assert(words.skip(1)[0] == words[1]);
    if key == text::lowered("LoginGraceTime"@) {
        directive::law_directive_found_by_name(Directive::Span(SpanSetting::LoginGraceTime), words[0]);
    }
    if key == text::lowered("ClientBannerTimeout"@) {
        directive::law_directive_found_by_name(Directive::Span(SpanSetting::ClientBannerTimeout), words[0]);
    }
    if key == text::lowered("KexStartTimeout"@) {
        directive::law_directive_found_by_name(Directive::Span(SpanSetting::KexStartTimeout), words[0]);
    }
    if key == text::lowered("AuthRejectionTime"@) {
        directive::law_directive_found_by_name(Directive::Span(SpanSetting::AuthRejectionTime), words[0]);
    }
    if key == text::lowered("AuthFailureBanWindow"@) {
        directive::law_directive_found_by_name(Directive::Span(SpanSetting::AuthFailureBanWindow), words[0]);
    }
    if key == text::lowered("AuthFailureBanDuration"@) {
        directive::law_directive_found_by_name(Directive::Span(SpanSetting::AuthFailureBanDuration), words[0]);
    }
    if key == text::lowered("InactivityTimeout"@) {
        directive::law_directive_found_by_name(Directive::Span(SpanSetting::InactivityTimeout), words[0]);
    }
    if key == text::lowered("KeepaliveInterval"@) {
        directive::law_directive_found_by_name(Directive::Span(SpanSetting::KeepaliveInterval), words[0]);
    }
    if key == text::lowered("AuthorizedKeysReloadInterval"@) {
        directive::law_directive_found_by_name(Directive::Span(SpanSetting::AuthorizedKeysReloadInterval), words[0]);
    }
}

/// A line that names a 32-bit size sets that one, to the number behind it, and
/// changes nothing else.
pub proof fn law_width_lines_set_their_own_width(
    c: ConfigView,
    line: Seq<char>,
    number: nat,
    base_dir: Seq<char>,
    home: Option<Seq<char>>,
    n: u32,
)
    requires
        line_words(line).len() >= 2,
        values::integer_value(line_words(line)[1], u32::MAX as nat) == Ok::<nat, ValueErrorView>(
            n as nat,
        ),
    ensures
        ({
            let key = text::lowered(line_words(line)[0]);
            let outcome = line_outcome(c, line, number, base_dir, home);
            &&& key == text::lowered("WindowSize"@) ==> outcome == (
                ConfigView { window_size: n, ..c },
                None::<ConfigErrorView>,
            )
            &&& key == text::lowered("MaximumPacketSize"@) ==> outcome == (
                ConfigView { maximum_packet_size: n, ..c },
                None::<ConfigErrorView>,
            )
        }),
{
    let words = line_words(line);
    let key = text::lowered(words[0]);
    assert(words.skip(1)[0] == words[1]);
    if key == text::lowered("WindowSize"@) {
        directive::law_directive_found_by_name(Directive::Width(WidthSetting::WindowSize), words[0]);
    }
    if key == text::lowered("MaximumPacketSize"@) {
        directive::law_directive_found_by_name(Directive::Width(WidthSetting::MaximumPacketSize), words[0]);
    }
}

/// A line that names the port, the address to listen on, the limit on the key
/// file, the mode of commands or the log level sets that one, to what is behind
/// it, and changes nothing else.
pub proof fn law_single_lines_set_their_own_setting(
    c: ConfigView,
    line: Seq<char>,
    number: nat,
    base_dir: Seq<char>,
    home: Option<Seq<char>>,
)
    requires
        line_words(line).len() >= 2,
    ensures
        ({
            let words = line_words(line);
            let key = text::lowered(words[0]);
            let value = words[1];
            let outcome = line_outcome(c, line, number, base_dir, home);
            &&& key == text::lowered("Port"@) ==> (values::integer_value(value, 65535) matches Ok(n)
                ==> outcome == (ConfigView { port: n as u16, ..c }, None::<ConfigErrorView>))
            &&& key == text::lowered("Port"@) ==> (values::integer_value(value, 65535) is Err
                ==> outcome.0 == c && outcome.1 is Some)
            &&& key == text::lowered("ListenAddress"@) ==> outcome == (
                ConfigView { listen_address: text::joined(words.skip(1)), ..c },
                None::<ConfigErrorView>,
            )
            &&& key == text::lowered("AuthorizedKeysMaxSize"@) ==> (values::byte_size_value(
                value,
            ) matches Ok(n) ==> outcome == (
                ConfigView { authorized_keys_max_size: n, ..c },
                None::<ConfigErrorView>,
            ))
            &&& key == text::lowered("LogLevel"@) ==> (log_level_value(value) matches Ok(l)
                ==> outcome == (ConfigView { log_level: l, ..c }, None::<ConfigErrorView>))
            &&& key == text::lowered("ExecMode"@) ==> (exec_mode_value(value) matches Ok(m)
                ==> outcome == (ConfigView { exec_mode: m, ..c }, None::<ConfigErrorView>))
            &&& key == text::lowered("Subsystem"@) ==> outcome == (
                ConfigView { sftp_enabled: c.sftp_enabled || value == "sftp"@, ..c },
                None::<ConfigErrorView>,
            )
            &&& key == text::lowered("PermitOpen"@) ==> outcome == (c, None::<ConfigErrorView>)
        }),
{
    let words = line_words(line);
    let key = text::lowered(words[0]);
    assert(words.skip(1)[0] == words[1]);
    if key == text::lowered("Port"@) {
        directive::law_directive_found_by_name(Directive::Port, words[0]);
    }
    if key == text::lowered("ListenAddress"@) {
        directive::law_directive_found_by_name(Directive::ListenAddress, words[0]);
    }
    if key == text::lowered("AuthorizedKeysMaxSize"@) {
        directive::law_directive_found_by_name(Directive::AuthorizedKeysMaxSize, words[0]);
    }
    if key == text::lowered("LogLevel"@) {
        directive::law_directive_found_by_name(Directive::LogLevel, words[0]);
    }
    if key == text::lowered("ExecMode"@) {
        directive::law_directive_found_by_name(Directive::ExecMode, words[0]);
    }
    if key == text::lowered("Subsystem"@) {
        directive::law_directive_found_by_name(Directive::Subsystem, words[0]);
    }
    if key == text::lowered("PermitOpen"@) {
        directive::law_directive_found_by_name(Directive::PermitOpen, words[0]);
    }
}

/// A line that asks for public keys or against passwords changes nothing; one
/// that asks for the opposite is refused, and so is one that asks for neither.
pub proof fn law_only_public_keys_by_line(
    c: ConfigView,
    line: Seq<char>,
    number: nat,
    base_dir: Seq<char>,
    home: Option<Seq<char>>,
)
    requires
        line_words(line).len() >= 2,
    ensures
        ({
            let words = line_words(line);
            let key = text::lowered(words[0]);
            let value = values::bool_value(words[1]);
            let outcome = line_outcome(c, line, number, base_dir, home);
            &&& key == text::lowered("PubkeyAuthentication"@) ==> outcome.0 == c && (outcome.1
                is None <==> value == Ok::<bool, ValueErrorView>(true)) && (value == Ok::<
                bool,
                ValueErrorView,
            >(false) ==> outcome.1->0 is PubkeyAuthenticationOff)
            &&& key == text::lowered("PasswordAuthentication"@) ==> outcome.0 == c && (outcome.1
                is None <==> value == Ok::<bool, ValueErrorView>(false)) && (value == Ok::<
                bool,
                ValueErrorView,
            >(true) ==> outcome.1->0 is PasswordAuthenticationOn)
        }),
{
    let words = line_words(line);
    let key = text::lowered(words[0]);
    assert(words.skip(1)[0] == words[1]);
    if key == text::lowered("PubkeyAuthentication"@) {
        directive::law_directive_found_by_name(Directive::PubkeyAuthentication, words[0]);
    }
    if key == text::lowered("PasswordAuthentication"@) {
        directive::law_directive_found_by_name(Directive::PasswordAuthentication, words[0]);
    }
}

/// A line that gives an error changes nothing, and the error tells the line: of
/// a directive without a value, of one that there is none of, or of a value that
/// the directive does not take.
pub proof fn law_lines_with_errors_change_nothing(
    c: ConfigView,
    line: Seq<char>,
    number: nat,
    base_dir: Seq<char>,
    home: Option<Seq<char>>,
)
    ensures
        ({
            let words = line_words(line);
            let (after, error) = line_outcome(c, line, number, base_dir, home);
            &&& error is Some ==> after == c
            &&& words.len() == 0 ==> error is None && after == c
            &&& words.len() == 1 ==> error == Some(
                ConfigErrorView::MissingValue { key: words[0], line: number },
            )
            &&& words.len() >= 2 && directive::directive_of(text::lowered(words[0])) is None
                ==> error == Some(
                ConfigErrorView::UnsupportedDirective { key: text::lowered(words[0]), line: number },
            )
            &&& error matches Some(ConfigErrorView::InvalidValue { directive, line: l, .. })
                ==> directive::directive_of(text::lowered(words[0])) == Some(directive) && l == number
            &&& words.len() >= 2 && (directive::directive_of(text::lowered(words[0])) matches Some(
                Directive::Flag(_),
            )) && values::bool_value(words[1]) is Err ==> error is Some
                && error->0 is InvalidValue
            &&& words.len() >= 2 && (directive::directive_of(text::lowered(words[0])) matches Some(
                Directive::Count(_),
            )) && values::integer_value(words[1], usize::MAX as nat) is Err ==> error is Some
                && error->0 is InvalidValue
            &&& words.len() >= 2 && (directive::directive_of(text::lowered(words[0])) matches Some(
                Directive::Span(_),
            )) && values::duration_value(words[1]) is Err ==> error is Some
                && error->0 is InvalidValue
        }),
{
    let words = line_words(line);
    if words.len() >= 2 {
        assert(words.skip(1)[0] == words[1]);
    }
}

/// What stands behind a `#` is a comment: the words of a line are those in front
/// of it.
pub proof fn law_comments_are_not_read(front: Seq<char>, comment: Seq<char>)
    requires
        forall|i: int| 0 <= i < front.len() ==> front[i] != '#',
    ensures
        line_words(front) == text::words_of(front),
        line_words(front + seq!['#'] + comment) == text::words_of(front),
{
    let line = front + seq!['#'] + comment;
    text::lemma_find_char(front, '#');
    text::lemma_find_char(line, '#');
    let n = text::find_char(line, '#') as int;
    assert(line[front.len() as int] == '#');
    if n < front.len() {
        assert(line[n] == front[n]);
    }
    assert(line.take(n) =~= front);
    assert(text::find_char(front, '#') == front.len()) by {
        let m = text::find_char(front, '#') as int;
        if m < front.len() {
            assert(front[m] == '#');
        }
    }
    assert(front.take(front.len() as int) =~= front);
}

/// Lines take effect one after the other: a later one sees what an earlier one
/// has set, and none behind the first error has any effect.
pub proof fn law_lines_take_effect_in_order(
    c: ConfigView,
    first: Seq<char>,
    rest: Seq<char>,
    base_dir: Seq<char>,
    home: Option<Seq<char>>,
)
    requires
        forall|i: int| 0 <= i < first.len() ==> first[i] != '\n',
    ensures
        text_outcome(c, first, base_dir, home) == line_outcome(c, first, 1, base_dir, home),
        line_outcome(c, first, 1, base_dir, home).1 is Some ==> text_outcome(
            c,
            first + seq!['\n'] + rest,
            base_dir,
            home,
        ) == line_outcome(c, first, 1, base_dir, home),
        line_outcome(c, first, 1, base_dir, home).1 is None ==> text_outcome(
            c,
            first + seq!['\n'] + rest,
            base_dir,
            home,
        ).0 == text_outcome(line_outcome(c, first, 1, base_dir, home).0, rest, base_dir, home).0,
{
    let text = first + seq!['\n'] + rest;
    let lines = text::split_at_char(text, '\n');
    let tail = text::split_at_char(rest, '\n');
    text::law_text_is_split_at_each_separator(first, '\n', rest);
    assert(lines =~= seq![first] + tail);
    assert(lines_outcome(c, lines, 0, base_dir, home) == (c, None::<ConfigErrorView>));
    assert(lines_outcome(c, lines, 1, base_dir, home) == line_outcome(c, first, 1, base_dir, home));
    let one = text::split_at_char(first, '\n');
    assert(lines_outcome(c, one, 0, base_dir, home) == (c, None::<ConfigErrorView>));
    assert(lines_outcome(c, one, 1, base_dir, home) == line_outcome(c, first, 1, base_dir, home));
    if line_outcome(c, first, 1, base_dir, home).1 is Some {
        lemma_lines_error_stays(c, lines, 1, lines.len(), base_dir, home);
    } else {
        let after = line_outcome(c, first, 1, base_dir, home).0;
        lemma_later_lines(c, after, first, tail, tail.len(), base_dir, home);
        assert(lines.len() == tail.len() + 1);
    }
}

proof fn lemma_later_lines(
    c: ConfigView,
    after: ConfigView,
    first: Seq<char>,
    tail: Seq<Seq<char>>,
    n: nat,
    base_dir: Seq<char>,
    home: Option<Seq<char>>,
)
    requires
        n <= tail.len(),
        line_outcome(c, first, 1, base_dir, home) == (after, None::<ConfigErrorView>),
    ensures
        lines_outcome(c, seq![first] + tail, n + 1, base_dir, home).0 == lines_outcome(
            after,
            tail,
            n,
            base_dir,
            home,
        ).0,
        lines_outcome(c, seq![first] + tail, n + 1, base_dir, home).1 is Some <==> lines_outcome(
            after,
            tail,
            n,
            base_dir,
            home,
        ).1 is Some,
    decreases n,
{
    let lines = seq![first] + tail;
    if n == 0 {
        assert(lines_outcome(c, lines, 0, base_dir, home) == (c, None::<ConfigErrorView>));
        assert(lines[0] == first);
        assert(lines_outcome(c, lines, 1, base_dir, home) == line_outcome(
            c,
            first,
            1,
            base_dir,
            home,
        ));
    } else {
        lemma_later_lines(c, after, first, tail, (n - 1) as nat, base_dir, home);
        assert(lines[n as int] == tail[n - 1]);
        let before = lines_outcome(after, tail, (n - 1) as nat, base_dir, home);
        lemma_number_is_only_told(before.0, tail[n - 1], n, n + 1, base_dir, home);
    }
}

/// The number of a line matters to its error only.
proof fn lemma_number_is_only_told(
    c: ConfigView,
    line: Seq<char>,
    m: nat,
    n: nat,
    base_dir: Seq<char>,
    home: Option<Seq<char>>,
)
    ensures
        line_outcome(c, line, m, base_dir, home).0 == line_outcome(c, line, n, base_dir, home).0,
        line_outcome(c, line, m, base_dir, home).1 is Some <==> line_outcome(
            c,
            line,
            n,
            base_dir,
            home,
        ).1 is Some,
{
}

/// A path in the file is what it says on Unix: an absolute one stands for
/// itself, one behind `~/` is seen from the home directory, and any other from
/// the directory of the file. It is set for the directive that names it, and
/// nothing else changes.
pub proof fn law_paths_are_seen_from_the_file(
    c: ConfigView,
    line: Seq<char>,
    number: nat,
    base_dir: Seq<char>,
    home: Option<Seq<char>>,
    value: Seq<char>,
)
    requires
        c.platform is Unix,
        line_words(line).len() >= 2,
        text::joined(line_words(line).skip(1)) == value,
        native_paths::ordinary(value),
        value.len() > 0,
        base_dir.len() > 0 && base_dir.last() != '/',
    ensures
        ({
            let key = text::lowered(line_words(line)[0]);
            let (after, error) = line_outcome(c, line, number, base_dir, home);
            let set = |p: Seq<char>| {
                &&& error is None
                &&& key == text::lowered("HostKey"@) ==> after == (ConfigView { host_key: p, ..c })
                &&& key == text::lowered("AuthorizedKeysFile"@) ==> after == (ConfigView {
                    authorized_keys_file: p,
                    ..c
                })
            };
            key == text::lowered("HostKey"@) || key == text::lowered("AuthorizedKeysFile"@) ==> {
                &&& value[0] == '/' ==> set(value)
                &&& value[0] != '/' && value[0] != '~' ==> set(base_dir + seq!['/'] + value)
                &&& value == seq!['~'] && home is Some && home->0.len() > 0 && home->0[0] == '/'
                    ==> set(home->0)
                &&& value == seq!['~'] && home is None ==> error == Some(
                    ConfigErrorView::HomeUnknown,
                ) && after == c
            }
        }),
{
    let words = line_words(line);
    let key = text::lowered(words[0]);
    if key == text::lowered("HostKey"@) {
        directive::law_directive_found_by_name(Directive::Path(PathSetting::HostKey), words[0]);
    }
    if key == text::lowered("AuthorizedKeysFile"@) {
        directive::law_directive_found_by_name(
            Directive::Path(PathSetting::AuthorizedKeysFile),
            words[0],
        );
    }
    assert(base_dir.push('/') + value =~= base_dir + seq!['/'] + value);
    if value[0] != '~' {
        assert(value != seq!['~']);
        if text::has_prefix(value, seq!['~', '/']) {
            assert(value.take(2)[0] == value[0]);
        }
    }
}

/// A path behind `~/` is the path behind the home directory.
pub proof fn law_tilde_stands_for_the_home_directory(
    home: Seq<char>,
    tail: Seq<char>,
    known: Option<String>,
    path: &str,
    r: Result<String, ConfigError>,
)
    requires
        call_ensures(expand_home_from, (path, &known, Platform::Unix), r),
        path@ == seq!['~', '/'] + tail,
        native_paths::ordinary(tail),
        tail.len() > 0,
        tail[0] != '/',
        tail[0] != '~',
        home.len() > 0,
        home.last() != '/',
    ensures
        known is None ==> r is Err && r->Err_0@ is HomeUnknown,
        known is Some && known->0@ == home ==> r is Ok && r->Ok_0@ == home + seq!['/'] + tail,
{
    let p = path@;
    assert(native_paths::ordinary(p)) by {
        assert forall|i: int| 0 <= i < p.len() implies !native_paths::stand_in(#[trigger] p[i]) by {
            if i >= 2 {
                assert(p[i] == tail[i - 2]);
            }
        }
    }
    assert(p.take(2) =~= seq!['~', '/']);
    assert(p.skip(2) =~= tail);
    assert(p.len() > 1);
    assert(tail.len() >= 2 ==> tail.take(2)[0] == tail[0]);
    assert(without_tilde(tail) == tail);
    assert(without_tilde(p) == without_tilde(p.skip(2)));
    assert(home.push('/') + tail =~= home + seq!['/'] + tail);
}

/// A shell that is named by its name alone is looked up by the system; one that
/// is named by a path is seen from the directory of the file.
pub proof fn law_bare_shells_are_looked_up(
    c: ConfigView,
    line: Seq<char>,
    number: nat,
    base_dir: Seq<char>,
    home: Option<Seq<char>>,
    value: Seq<char>,
)
    requires
        c.platform is Unix,
        line_words(line).len() >= 2,
        text::joined(line_words(line).skip(1)) == value,
        native_paths::ordinary(value),
        value.len() > 0,
        value[0] != '~',
        text::lowered(line_words(line)[0]) == text::lowered("Shell"@),
    ensures
        ({
            let (after, error) = line_outcome(c, line, number, base_dir, home);
            &&& error is None
            &&& after == (ConfigView { shell: after.shell, ..c })
            &&& value[0] == '/' ==> after.shell == value
            &&& value[0] != '/' && paths::parts_of(value).len() <= 1 ==> after.shell == value
            &&& value[0] != '/' && paths::parts_of(value).len() > 1 && base_dir.len() > 0
                && base_dir.last() != '/' ==> after.shell == base_dir + seq!['/'] + value
        }),
{
    let words = line_words(line);
    directive::law_directive_found_by_name(Directive::Shell, words[0]);
    assert(base_dir.push('/') + value =~= base_dir + seq!['/'] + value);
    assert(value != seq!['~']);
    if text::has_prefix(value, seq!['~', '/']) {
        assert(value.take(2)[0] == value[0]);
    }
}

/// The log levels and the modes are known by their names, in any letter case, and
/// by no other.
pub proof fn law_levels_and_modes_have_names(s: Seq<char>)
    ensures
        ({
            let w = text::lowered(text::trimmed(s));
            &&& log_level_value(s) == Ok::<LogLevel, ValueErrorView>(LogLevel::Error) <==> w
                == "error"@
            &&& log_level_value(s) == Ok::<LogLevel, ValueErrorView>(LogLevel::Warn) <==> w
                == "warn"@ || w == "warning"@
            &&& log_level_value(s) == Ok::<LogLevel, ValueErrorView>(LogLevel::Info) <==> w
                == "info"@
            &&& log_level_value(s) == Ok::<LogLevel, ValueErrorView>(LogLevel::Debug) <==> w
                == "debug"@
            &&& log_level_value(s) == Ok::<LogLevel, ValueErrorView>(LogLevel::Trace) <==> w
                == "trace"@
            &&& exec_mode_value(s) == Ok::<ExecMode, ValueErrorView>(ExecMode::ShellLogin) <==> w
                == "shelllogin"@
            &&& exec_mode_value(s) == Ok::<ExecMode, ValueErrorView>(ExecMode::ShellCommand) <==> w
                == "shellcommand"@
            &&& exec_mode_value(s) == Ok::<ExecMode, ValueErrorView>(ExecMode::PowerShell) <==> w
                == "powershell"@
            &&& exec_mode_value(s) == Ok::<ExecMode, ValueErrorView>(ExecMode::Cmd) <==> w
                == "cmd"@
        }),
{
    reveal_strlit("error");
    reveal_strlit("warn");
    reveal_strlit("warning");
    reveal_strlit("info");
    reveal_strlit("debug");
    reveal_strlit("trace");
    reveal_strlit("shelllogin");
    reveal_strlit("shellcommand");
    reveal_strlit("powershell");
    reveal_strlit("cmd");
    assert("error"@[0] != "debug"@[0] && "error"@[0] != "trace"@[0]);
    assert("debug"@[0] != "trace"@[0]);
    assert("warn"@[0] != "info"@[0]);
    assert("warning"@.len() == 7);
    assert("shelllogin"@[0] != "powershell"@[0]);
    assert("shellcommand"@.len() == 12);
    assert("cmd"@.len() == 3);
}

/// Each level lets through what is as grave as it says, and each mode hands the
/// command to its shell by that shell's own argument.
pub proof fn law_levels_and_modes_mean_what_they_say(
    level: LogLevel,
    filter: log::LevelFilter,
    mode: ExecMode,
    flag: &'static str,
)
    requires
        call_ensures(LogLevel::to_level_filter, (level,), filter),
        call_ensures(ExecMode::command_flag, (mode,), flag),
    ensures
        level is Error <==> filter is Error,
        level is Warn <==> filter is Warn,
        level is Info <==> filter is Info,
        level is Debug <==> filter is Debug,
        level is Trace <==> filter is Trace,
        mode is ShellLogin ==> flag@ == "-lc"@,
        mode is ShellCommand ==> flag@ == "-c"@,
        mode is PowerShell ==> flag@ == "-Command"@,
        mode is Cmd ==> flag@ == "/C"@,
        flag@ == mode.flag(),
{
}

/// The settings hold by default what the documentation tells: connections,
/// logins and sessions are limited, and everything that a session may ask for is
/// permitted. The paths lie under the directories of the user.
pub proof fn law_defaults_are_as_documented(
    home: Seq<char>,
    config_dir: Option<Seq<char>>,
    platform: Platform,
)
    ensures
        ({
            let c = default_settings(home, config_dir, platform);
            &&& c.platform == platform
            &&& c.port == 2222
            &&& c.listen_address == "0.0.0.0"@
            &&& c.permit_tty && c.permit_exec && c.sftp_enabled
            &&& c.allow_tcp_forwarding && c.allow_remote_forwarding && c.gateway_ports && c.nodelay
            &&& c.max_unauth_connections_global == 16
            &&& c.max_unauth_connections_per_ip == 3
            &&& c.max_unauth_connections_per_subnet == 8
            &&& c.new_connections_per_minute_per_ip == 12
            &&& c.new_connections_burst_per_ip == 4
            &&& c.login_grace_time.secs == 15 && c.login_grace_time.nanos == 0
            &&& c.client_banner_timeout.secs == 5 && c.client_banner_timeout.nanos == 0
            &&& c.kex_start_timeout.secs == 5 && c.kex_start_timeout.nanos == 0
            &&& c.max_auth_attempts == 4
            &&& c.auth_rejection_time.secs == 2 && c.auth_rejection_time.nanos == 0
            &&& c.auth_failure_ban_threshold == 8
            &&& c.auth_failure_ban_window.secs == 10 * 60
            &&& c.auth_failure_ban_duration.secs == 15 * 60
            &&& c.inactivity_timeout.secs == 15 * 60
            &&& c.keepalive_interval.secs == 30
            &&& c.keepalive_max == 3
            &&& c.channel_buffer_size == 32
            &&& c.event_buffer_size == 16
            &&& c.window_size == 1024 * 1024
            &&& c.maximum_packet_size == 32 * 1024
            &&& c.authorized_keys_max_size == 256 * 1024
            &&& c.authorized_keys_max_entries == 128
            &&& c.authorized_keys_reload_interval.secs == 2
            &&& c.log_level is Info
            &&& platform is Unix ==> c.shell == "/bin/bash"@ && c.exec_mode is ShellLogin
            &&& platform is Windows ==> c.shell == "powershell.exe"@ && c.exec_mode is PowerShell
            &&& platform is Unix && home.len() > 0 && home.last() != '/' ==> c.authorized_keys_file
                == home + seq!['/'] + ".ssh/authorized_keys"@
            &&& platform is Unix && config_dir is Some && config_dir->0.len() > 0
                && config_dir->0.last() != '/' ==> c.host_key == config_dir->0 + seq!['/']
                + "narrowd/ssh_host_ed25519_key"@
            &&& platform is Unix && config_dir is None && home.len() > 0 && home.last() != '/'
                ==> c.host_key == home + seq!['/'] + ".config"@ + seq!['/']
                + "narrowd/ssh_host_ed25519_key"@
        }),
{
    reveal_strlit(".ssh/authorized_keys");
    reveal_strlit("narrowd/ssh_host_ed25519_key");
    reveal_strlit(".config");
    let keys = ".ssh/authorized_keys"@;
    let key = "narrowd/ssh_host_ed25519_key"@;
    let dir = ".config"@;
    assert(keys[0] == '.' && key[0] == 'n' && dir[0] == '.');
    assert(home.push('/') + keys =~= home + seq!['/'] + keys);
    if config_dir is Some {
        assert(config_dir->0.push('/') + key =~= config_dir->0 + seq!['/'] + key);
    } else if home.len() > 0 && home.last() != '/' {
        let root = home.push('/') + dir;
        assert(dir.last() == 'g');
        assert(root.last() == dir.last());
        assert(root.push('/') + key =~= home + seq!['/'] + dir + seq!['/'] + key);
    }
}

/// The settings can be had if the home directory is known, and then they are the
/// default ones; else they cannot.
pub proof fn law_defaults_need_the_home_directory(
    home: Option<String>,
    config_dir: Option<String>,
    platform: Platform,
    r: Result<AppConfig, ConfigError>,
)
    requires
        call_ensures(AppConfig::defaults_for, (home, config_dir, platform), r),
    ensures
        r is Ok <==> home is Some,
        r matches Ok(c) ==> c@.port == 2222 && c@.platform == platform && c@ == default_settings(
            home->0@,
            text_of(config_dir),
            platform,
        ),
        r matches Err(e) ==> e@ is HomeUnknown,
{
}

/// The file that is read is the one that was asked for, which then has to exist;
/// where none was, it is the one in the configuration directory, which need not.
pub proof fn law_requested_file_is_read(
    requested: Option<String>,
    home: Option<String>,
    config_dir: Option<String>,
    r: Result<ConfigSource, ConfigError>,
)
    requires
        call_ensures(AppConfig::source_for, (requested, home, config_dir, Platform::Unix), r),
    ensures
        r matches Ok(source) ==> source.required == (requested is Some),
        requested matches Some(path) ==> (native_paths::ordinary(path@) && path@.len() > 0
            && path@[0] != '~' ==> r is Ok && r->Ok_0.path@ == path@),
        requested is None && home is None ==> r is Err && r->Err_0@ is HomeUnknown,
        requested is None && home is Some && config_dir is Some && config_dir->0@.len() > 0
            && config_dir->0@.last() != '/' ==> r is Ok && r->Ok_0.path@ == config_dir->0@
            + seq!['/'] + "narrowd/narrowd.conf"@,
{
    reveal_strlit("narrowd/narrowd.conf");
    let name = "narrowd/narrowd.conf"@;
    assert(name[0] == 'n');
    if config_dir is Some {
        let dir = config_dir->0@;
        assert(dir.push('/') + name =~= dir + seq!['/'] + name);
    }
    if requested is Some {
        let path = requested->0@;
        if path.len() > 0 && path[0] != '~' {
            assert(path != seq!['~']);
            if text::has_prefix(path, seq!['~', '/']) {
                assert(path.take(2)[0] == path[0]);
            }
        }
    }
}

/// What the settings are by default does not depend on the system but for the
/// paths; they cannot be had only where the home directory is not known.
pub proof fn law_system_tells_only_the_directories(
    platform: Platform,
    settings: Result<AppConfig, ConfigError>,
    path: Result<String, ConfigError>,
)
    requires
        call_ensures(AppConfig::defaults, (platform,), settings),
        call_ensures(default_config_path, (platform,), path),
    ensures
        settings matches Ok(c) ==> c@.platform == platform && c@.port == 2222 && c@.listen_address
            == "0.0.0.0"@ && c@.permit_tty && c@.permit_exec && c@.max_auth_attempts == 4,
        settings matches Err(e) ==> e@ is HomeUnknown,
        path matches Err(e) ==> e@ is HomeUnknown,
        platform is Unix && path is Ok ==> path->Ok_0@.len() >= 20 && path->Ok_0@.skip(
            path->Ok_0@.len() - 20,
        ) == "narrowd/narrowd.conf"@,
{
    reveal_strlit("narrowd/narrowd.conf");
    let name = "narrowd/narrowd.conf"@;
    assert(name.len() == 20 && name[0] == 'n');
    if platform is Unix && path is Ok {
        let (home, dir) = choose|home: Option<NativePath>, dir: Option<NativePath>|
            path_outcome(path) == #[trigger] default_path(
                native_paths::known_text(home),
                native_paths::known_text(dir),
                platform,
            );
        let root = config_root(
            native_paths::known_text(home)->0,
            native_paths::known_text(dir),
            platform,
        );
        let p = path->Ok_0@;
        assert(p == paths::appended(root, name));
        assert(p.skip(p.len() - 20) =~= name);
    }
}

/// A path that does not start with a tilde needs no home directory: it stands
/// for itself, and is the file that is read where it was asked for. A file that
/// was asked for has to exist; the usual one need not.
pub proof fn law_path_without_tilde_stands_for_itself(
    path: &str,
    platform: Platform,
    expanded_to: Result<String, ConfigError>,
    requested: Option<String>,
    source: Result<ConfigSource, ConfigError>,
)
    requires
        call_ensures(expand_home, (path, platform), expanded_to),
        call_ensures(AppConfig::source, (requested, platform), source),
        forall|i: int| 0 <= i < path@.len() ==> (#[trigger] path@[i]) as u32 <= 0x10ff7f,
        path@.len() == 0 || path@[0] != '~',
    ensures
        expanded_to is Ok && expanded_to->Ok_0@ == path@,
        requested is Some && requested->0@ == path@ ==> source is Ok && source->Ok_0.path@ == path@
            && source->Ok_0.required,
        requested is None && source is Ok ==> !source->Ok_0.required,
        source matches Err(e) ==> e@ is HomeUnknown,
{
    assert(native_paths::ordinary(path@));
    let tilde = seq!['~'];
    assert(tilde[0] == '~' && tilde.len() == 1);
    assert(path@ != tilde);
    if text::has_prefix(path@, seq!['~', '/']) {
        assert(path@.take(2)[0] == path@[0]);
    }
}

/// The paths in a file are seen from the directory that holds it.
pub proof fn law_file_is_in_its_directory(
    source: &ConfigSource,
    platform: Platform,
    dir: String,
    d: Seq<char>,
    name: Seq<char>,
)
    requires
        call_ensures(ConfigSource::base_dir, (source, platform), dir),
        platform is Unix ==> paths::directory_named(d) && d.len() > 1 && paths::file_named(name)
            && source.path@ == d + seq!['/'] + name,
        platform is Windows ==> windows_paths::directory_named(d) && d.len() > 3
            && windows_paths::file_named(name) && source.path@ == d + seq!['\\'] + name,
    ensures
        dir@ == d,
{
    match platform {
        Platform::Unix => {
            paths::lemma_named_below(d, name);
        },
        Platform::Windows => {
            windows_paths::lemma_named_below(d, name);
        },
    }
}

/// A text without paths under the home directory has the same effect whatever
/// that directory is.
pub proof fn law_text_is_taken_as_it_is(
    told: &mut AppConfig,
    asked: &mut AppConfig,
    text: &str,
    base_dir: &str,
    home: &Option<String>,
    first: Result<(), ConfigError>,
    second: Result<(), ConfigError>,
)
    requires
        old(told)@ == old(asked)@,
        call_ensures(AppConfig::apply_text_from, (told, text, base_dir, home), first),
        call_ensures(AppConfig::apply_text, (asked, text, base_dir), second),
        forall|i: int|
            0 <= i < text::split_at_char(text@, '\n').len() ==> !names_home(
                #[trigger] text::split_at_char(text@, '\n')[i],
            ),
    ensures
        final(told)@ == final(asked)@,
        error_of(first) == error_of(second),
{
    let other = choose|other: Option<NativePath>|
        (final(asked)@, error_of(second)) == #[trigger] text_outcome(
            old(asked)@,
            text@,
            base_dir@,
            native_paths::known_text(other),
        );
    law_home_matters_only_under_tilde(
        old(told)@,
        text@,
        base_dir@,
        text_of(*home),
        native_paths::known_text(other),
    );
}

/// A line that names a flag sets that flag for the daemon, to the truth value
/// behind it, and changes no other setting.
pub proof fn law_flag_is_set_by_its_line(
    settings: &mut AppConfig,
    line: &str,
    base_dir: &str,
    home: &Option<String>,
    r: Result<(), ConfigError>,
    b: bool,
)
    requires
        call_ensures(AppConfig::apply_text_from, (settings, line, base_dir, home), r),
        forall|i: int| 0 <= i < line@.len() ==> line@[i] != '\n',
        line_words(line@).len() >= 2,
        values::bool_value(line_words(line@)[1]) == Ok::<bool, ValueErrorView>(b),
    ensures
        ({
            let key = text::lowered(line_words(line@)[0]);
            let before = old(settings)@;
            let after = final(settings)@;
            &&& key == text::lowered("PermitTTY"@) ==> r is Ok && after == (ConfigView {
                permit_tty: b,
                ..before
            })
            &&& key == text::lowered("PermitExec"@) ==> r is Ok && after == (ConfigView {
                permit_exec: b,
                ..before
            })
            &&& key == text::lowered("SftpEnabled"@) ==> r is Ok && after == (ConfigView {
                sftp_enabled: b,
                ..before
            })
            &&& key == text::lowered("AllowTcpForwarding"@) ==> r is Ok && after == (ConfigView {
                allow_tcp_forwarding: b,
                ..before
            })
            &&& key == text::lowered("AllowRemoteForwarding"@) ==> r is Ok && after == (
            ConfigView { allow_remote_forwarding: b, ..before })
            &&& key == text::lowered("GatewayPorts"@) ==> r is Ok && after == (ConfigView {
                gateway_ports: b,
                ..before
            })
            &&& key == text::lowered("NoDelay"@) ==> r is Ok && after == (ConfigView {
                nodelay: b,
                ..before
            })
        }),
{
    law_lines_take_effect_in_order(
        old(settings)@,
        line@,
        Seq::empty(),
        base_dir@,
        text_of(*home),
    );
    law_flag_lines_set_their_own_flag(old(settings)@, line@, 1, base_dir@, text_of(*home), b);
}

/// What is wrong with a configuration is told in words that name the directive
/// and the line.
pub proof fn law_configuration_errors_are_told_in_words(e: ConfigError, words: String)
    requires
        call_ensures(ConfigError::message, (&e,), words),
    ensures
        e is HomeUnknown <==> e@ is HomeUnknown,
        e is MissingValue <==> e@ is MissingValue,
        e is InvalidValue <==> e@ is InvalidValue,
        e is PubkeyAuthenticationOff <==> e@ is PubkeyAuthenticationOff,
        e is PasswordAuthenticationOn <==> e@ is PasswordAuthenticationOn,
        e is UnsupportedDirective <==> e@ is UnsupportedDirective,
        words@ == (match e@ {
            ConfigErrorView::HomeUnknown => "unable to determine home directory"@,
            ConfigErrorView::MissingValue { key, line } => "missing value for directive "@ + key
                + " on line "@ + text::decimal(line),
            ConfigErrorView::InvalidValue { directive, line, cause } => "invalid "@
                + directive.name() + " on line "@ + text::decimal(line),
            ConfigErrorView::PubkeyAuthenticationOff => "PubkeyAuthentication no is unsupported"@,
            ConfigErrorView::PasswordAuthenticationOn =>
                "PasswordAuthentication yes is unsupported"@,
            ConfigErrorView::UnsupportedDirective { key, line } => "unsupported directive "@ + key
                + " on line "@ + text::decimal(line),
        }),
{
}

/// What is told of the settings is what they hold, each under its own name.
pub proof fn law_settings_are_what_they_are_called(c: AppConfig)
    ensures
        c@.platform == c.platform,
        c@.listen_address == c.listen_address@,
        c@.port == c.port,
        c@.host_key == c.host_key@,
        c@.authorized_keys_file == c.authorized_keys_file@,
        c@.shell == c.shell@,
        c@.exec_mode == c.exec_mode,
        c@.permit_tty == c.permit_tty,
        c@.permit_exec == c.permit_exec,
        c@.sftp_enabled == c.sftp_enabled,
        c@.allow_tcp_forwarding == c.allow_tcp_forwarding,
        c@.allow_remote_forwarding == c.allow_remote_forwarding,
        c@.gateway_ports == c.gateway_ports,
        c@.max_unauth_connections_global == c.max_unauth_connections_global,
        c@.max_unauth_connections_per_ip == c.max_unauth_connections_per_ip,
        c@.max_unauth_connections_per_subnet == c.max_unauth_connections_per_subnet,
        c@.new_connections_per_minute_per_ip == c.new_connections_per_minute_per_ip,
        c@.new_connections_burst_per_ip == c.new_connections_burst_per_ip,
        c@.login_grace_time == c.login_grace_time,
        c@.client_banner_timeout == c.client_banner_timeout,
        c@.kex_start_timeout == c.kex_start_timeout,
        c@.max_auth_attempts == c.max_auth_attempts,
        c@.auth_rejection_time == c.auth_rejection_time,
        c@.auth_failure_ban_threshold == c.auth_failure_ban_threshold,
        c@.auth_failure_ban_window == c.auth_failure_ban_window,
        c@.auth_failure_ban_duration == c.auth_failure_ban_duration,
        c@.inactivity_timeout == c.inactivity_timeout,
        c@.keepalive_interval == c.keepalive_interval,
        c@.keepalive_max == c.keepalive_max,
        c@.channel_buffer_size == c.channel_buffer_size,
        c@.event_buffer_size == c.event_buffer_size,
        c@.window_size == c.window_size,
        c@.maximum_packet_size == c.maximum_packet_size,
        c@.nodelay == c.nodelay,
        c@.authorized_keys_max_size == c.authorized_keys_max_size,
        c@.authorized_keys_max_entries == c.authorized_keys_max_entries,
        c@.authorized_keys_reload_interval == c.authorized_keys_reload_interval,
        c@.log_level == c.log_level,
{
}

/// A log level is read back from its own name, whatever the level.
pub proof fn law_level_is_read_from_its_name(
    level: LogLevel,
    name: &'static str,
    read: Result<LogLevel, ValueError>,
)
    requires
        call_ensures(LogLevel::label, (level,), name),
        call_ensures(LogLevel::parse, (name,), read),
    ensures
        read is Ok && read->Ok_0 == level,
        level is Error ==> name@ == "error"@,
        level is Warn ==> name@ == "warn"@,
        level is Info ==> name@ == "info"@,
        level is Debug ==> name@ == "debug"@,
        level is Trace ==> name@ == "trace"@,
{
    law_log_level_reads_back(level);
}

} // verus!
