//! Who may log in, and how the SSH protocol is spoken.
use vstd::prelude::*;
use vstd::string::*;

use crate::admission::{AdmissionConfig, AdmissionController, AdmissionView};
use crate::authorized_keys;
use crate::authorized_keys::{
    AuthorizedKeysStore, KeysError, KeysErrorView, KeysFile, ReloadStatusView, StoreView,
};
use crate::config::{AppConfig, ConfigView};
use crate::log_limiter::{LimiterView, LogDecision, LogKey, LogLimiter};
use crate::native_paths;
use crate::net::IpAddr;
use crate::text;
use crate::time;
use crate::time::{Duration, Instant};
use crate::values;

verus! {

/// The algorithm of a key.
#[verifier::external_type_specification]
pub struct ExAlgorithm(russh::keys::ssh_key::Algorithm);

/// The curve of an ECDSA key.
#[verifier::external_type_specification]
pub struct ExEcdsaCurve(russh::keys::ssh_key::EcdsaCurve);

/// The digest of an RSA signature.
#[verifier::external_type_specification]
pub struct ExHashAlg(russh::keys::ssh_key::HashAlg);

/// The name of an algorithm that has no variant of its own.
#[verifier::external_type_specification]
#[verifier::external_body]
pub struct ExAlgorithmName(russh::keys::ssh_key::AlgorithmName);

/// A login is for the user that the daemon runs as, by that exact name.
pub fn login_user_matches_daemon(requested_user: &str, daemon_username: &str) -> (r: bool)
    ensures
        r == (requested_user@ == daemon_username@),
{
    text::same_str(requested_user, daemon_username)
}

/// Whether keys of this algorithm may log in.
pub open spec fn algorithm_allowed(algorithm: russh::keys::ssh_key::Algorithm) -> bool {
    algorithm is Ed25519 || algorithm is SkEd25519
}

pub fn is_user_key_algorithm_allowed(algorithm: &russh::keys::ssh_key::Algorithm) -> (r: bool)
    ensures
        r == algorithm_allowed(*algorithm),
{
    match algorithm {
        russh::keys::ssh_key::Algorithm::Ed25519 => true,
        russh::keys::ssh_key::Algorithm::SkEd25519 => true,
        _ => false,
    }
}

/// The other end of a connection.
#[derive(Debug)]
pub struct Peer {
    pub ip: IpAddr,
    /// The address and the port in words.
    pub label: String,
}

/// The words for a peer that may not be known.
pub open spec fn label_of(peer: Option<Peer>) -> Seq<char> {
    match peer {
        Some(peer) => peer.label@,
        None => "<unknown peer>"@,
    }
}

pub fn peer_label(peer: &Option<Peer>) -> (r: String)
    ensures
        r@ == label_of(*peer),
{
    match peer {
        Some(peer) => String::from_str(peer.label.as_str()),
        None => String::from_str("<unknown peer>"),
    }
}

/// The address of a peer that may not be known.
pub open spec fn ip_of(peer: Option<Peer>) -> Option<IpAddr> {
    match peer {
        Some(peer) => Some(peer.ip),
        None => None,
    }
}

fn peer_ip(peer: &Option<Peer>) -> (r: Option<IpAddr>)
    ensures
        r == ip_of(*peer),
{
    match peer {
        Some(peer) => Some(peer.ip),
        None => None,
    }
}

/// The ways to log in.
#[derive(Clone, Copy, Debug, PartialEq, Eq, Structural)]
pub enum AuthMethod {
    PublicKey,
}

/// The algorithms that the daemon speaks, by their names in the protocol and in
/// the order of preference.
#[derive(Debug)]
pub struct PreferredAlgorithms {
    pub kex: Vec<&'static str>,
    pub key: Vec<&'static str>,
    pub cipher: Vec<&'static str>,
    pub mac: Vec<&'static str>,
    pub compression: Vec<&'static str>,
}

/// The texts of a list of names.
pub open spec fn names(list: Seq<&'static str>) -> Seq<Seq<char>> {
    list.map_values(|s: &'static str| s@)
}

/// Whether only the modern algorithms are spoken that a daemon on the open
/// network should speak.
pub open spec fn for_public_exposure(p: PreferredAlgorithms) -> bool {
    &&& names(p.kex@) == seq![
        "mlkem768x25519-sha256"@,
        "curve25519-sha256"@,
        "curve25519-sha256@libssh.org"@,
        "ext-info-s"@,
        "kex-strict-s-v00@openssh.com"@,
    ]
    &&& names(p.key@) == seq!["ssh-ed25519"@, "sk-ssh-ed25519@openssh.com"@]
    &&& names(p.cipher@) == seq![
        "chacha20-poly1305@openssh.com"@,
        "aes256-gcm@openssh.com"@,
        "aes256-ctr"@,
        "aes128-ctr"@,
    ]
    &&& names(p.mac@) == seq![
        "hmac-sha2-512-etm@openssh.com"@,
        "hmac-sha2-256-etm@openssh.com"@,
        "hmac-sha2-512"@,
        "hmac-sha2-256"@,
    ]
    &&& names(p.compression@) == seq!["none"@]
}

pub fn public_exposure_preferred() -> (r: PreferredAlgorithms)
    ensures
        for_public_exposure(r),
{
    let r = PreferredAlgorithms {
        kex: vec![
            "mlkem768x25519-sha256",
            "curve25519-sha256",
            "curve25519-sha256@libssh.org",
            "ext-info-s",
            "kex-strict-s-v00@openssh.com",
        ],
        key: vec!["ssh-ed25519", "sk-ssh-ed25519@openssh.com"],
        cipher: vec![
            "chacha20-poly1305@openssh.com",
            "aes256-gcm@openssh.com",
            "aes256-ctr",
            "aes128-ctr",
        ],
        mac: vec![
            "hmac-sha2-512-etm@openssh.com",
            "hmac-sha2-256-etm@openssh.com",
            "hmac-sha2-512",
            "hmac-sha2-256",
        ],
        compression: vec!["none"],
    };
    assert(names(r.kex@) =~= seq![
        "mlkem768x25519-sha256"@,
        "curve25519-sha256"@,
        "curve25519-sha256@libssh.org"@,
        "ext-info-s"@,
        "kex-strict-s-v00@openssh.com"@,
    ]);
    assert(names(r.key@) =~= seq!["ssh-ed25519"@, "sk-ssh-ed25519@openssh.com"@]);
    assert(names(r.cipher@) =~= seq![
        "chacha20-poly1305@openssh.com"@,
        "aes256-gcm@openssh.com"@,
        "aes256-ctr"@,
        "aes128-ctr"@,
    ]);
    assert(names(r.mac@) =~= seq![
        "hmac-sha2-512-etm@openssh.com"@,
        "hmac-sha2-256-etm@openssh.com"@,
        "hmac-sha2-512"@,
        "hmac-sha2-256"@,
    ]);
    assert(names(r.compression@) =~= seq!["none"@]);
    r
}

/// How the SSH protocol is spoken.
#[derive(Debug)]
pub struct SshSettings {
    pub methods: Vec<AuthMethod>,
    pub auth_rejection_time: Duration,
    pub auth_rejection_time_initial: Option<Duration>,
    pub preferred: PreferredAlgorithms,
    pub max_auth_attempts: usize,
    pub inactivity_timeout: Option<Duration>,
    pub keepalive_interval: Option<Duration>,
    pub keepalive_max: usize,
    pub nodelay: bool,
    pub channel_buffer_size: usize,
    pub event_buffer_size: usize,
    pub window_size: u32,
    pub maximum_packet_size: u32,
}

pub fn build_ssh_config(config: &AppConfig) -> (r: SshSettings)
    ensures
        r.methods@ == seq![AuthMethod::PublicKey],
        r.auth_rejection_time == config.auth_rejection_time,
        r.auth_rejection_time_initial == Some(config.auth_rejection_time),
        r.max_auth_attempts == config.max_auth_attempts,
        r.inactivity_timeout == Some(config.inactivity_timeout),
        r.keepalive_interval == Some(config.keepalive_interval),
        r.keepalive_max == config.keepalive_max,
        r.nodelay == config.nodelay,
        r.channel_buffer_size == config.channel_buffer_size,
        r.event_buffer_size == config.event_buffer_size,
        r.window_size == config.window_size,
        r.maximum_packet_size == config.maximum_packet_size,
        for_public_exposure(r.preferred),
{
    let mut methods: Vec<AuthMethod> = Vec::new();
    methods.push(AuthMethod::PublicKey);
    assert(methods@ =~= seq![AuthMethod::PublicKey]);
    SshSettings {
        methods,
        auth_rejection_time: config.auth_rejection_time,
        auth_rejection_time_initial: Some(config.auth_rejection_time),
        preferred: public_exposure_preferred(),
        max_auth_attempts: config.max_auth_attempts,
        inactivity_timeout: Some(config.inactivity_timeout),
        keepalive_interval: Some(config.keepalive_interval),
        keepalive_max: config.keepalive_max,
        nodelay: config.nodelay,
        channel_buffer_size: config.channel_buffer_size,
        event_buffer_size: config.event_buffer_size,
        window_size: config.window_size,
        maximum_packet_size: config.maximum_packet_size,
    }
}

/// Why the daemon does not start.
#[derive(Debug)]
pub enum BootstrapError {
    HomeUnknown,
    Keys(KeysError),
    HostKeyNotEd25519 { path: String },
    UserLookupFailed,
    NoSuchUser { uid: u32 },
}

/// What a `BootstrapError` says.
pub enum BootstrapErrorView {
    HomeUnknown,
    Keys(KeysErrorView),
    HostKeyNotEd25519 { path: Seq<char> },
    UserLookupFailed,
    NoSuchUser { uid: u32 },
}

impl View for BootstrapError {
    type V = BootstrapErrorView;

    open spec fn view(&self) -> BootstrapErrorView {
        match self {
            BootstrapError::HomeUnknown => BootstrapErrorView::HomeUnknown,
            BootstrapError::Keys(e) => BootstrapErrorView::Keys(e@),
            BootstrapError::HostKeyNotEd25519 { path } => BootstrapErrorView::HostKeyNotEd25519 {
                path: path@,
            },
            BootstrapError::UserLookupFailed => BootstrapErrorView::UserLookupFailed,
            BootstrapError::NoSuchUser { uid } => BootstrapErrorView::NoSuchUser { uid: *uid },
        }
    }
}

impl BootstrapErrorView {
    pub open spec fn message(self) -> Seq<char> {
        match self {
            BootstrapErrorView::HomeUnknown => "unable to determine home directory"@,
            BootstrapErrorView::Keys(e) => e.message(),
            BootstrapErrorView::HostKeyNotEd25519 { path } => "host key "@
                + native_paths::shown(path) + " must be an Ed25519 key for the public exposure profile"@,
            BootstrapErrorView::UserLookupFailed =>
                "failed to resolve daemon user from current uid"@,
            BootstrapErrorView::NoSuchUser { uid } => "no passwd entry for daemon uid "@
                + text::decimal(uid as nat),
        }
    }
}

impl BootstrapError {
    /// The error in words.
    pub fn message(&self) -> (r: String)
        ensures
            r@ == self@.message(),
    {
        match self {
            BootstrapError::HomeUnknown => String::from_str("unable to determine home directory"),
            BootstrapError::Keys(e) => e.message(),
            BootstrapError::HostKeyNotEd25519 { path } => {
                let mut out = native_paths::naming("host key ", path.as_str());
                out.append(" must be an Ed25519 key for the public exposure profile");
                out
            },
            BootstrapError::UserLookupFailed => String::from_str(
                "failed to resolve daemon user from current uid",
            ),
            BootstrapError::NoSuchUser { uid } => {
                let number = text::decimal_of(*uid as u64);
                values::sentence("no passwd entry for daemon uid ", number.as_str())
            },
        }
    }
}

/// What came of asking for the name of a user.
#[derive(Debug)]
pub enum UserLookup {
    Found(String),
    NoEntry,
    Failed,
}

/// The name of the user that the daemon runs as.
pub fn daemon_username(uid: u32, lookup: UserLookup) -> (r: Result<String, BootstrapError>)
    ensures
        match lookup {
            UserLookup::Found(name) => r == Ok::<String, BootstrapError>(name),
            UserLookup::NoEntry => r is Err && r->Err_0@ == (BootstrapErrorView::NoSuchUser { uid }),
            UserLookup::Failed => r is Err && r->Err_0@ == BootstrapErrorView::UserLookupFailed,
        },
{
    match lookup {
        UserLookup::Found(name) => Ok(name),
        UserLookup::NoEntry => Err(BootstrapError::NoSuchUser { uid }),
        UserLookup::Failed => Err(BootstrapError::UserLookupFailed),
    }
}

/// The state that all connections share.
pub struct AppState {
    pub config: AppConfig,
    pub daemon_username: String,
    pub home_dir: String,
    pub authorized_keys: AuthorizedKeysStore,
    pub admission: AdmissionController,
    pub log_limiter: LogLimiter,
}

/// What the shared state holds.
pub struct StateView {
    pub config: ConfigView,
    pub user: Seq<char>,
    pub home: Seq<char>,
    pub keys: StoreView,
    pub admission: AdmissionView,
    pub limiter: LimiterView,
}

impl View for AppState {
    type V = StateView;

    open spec fn view(&self) -> StateView {
        StateView {
            config: self.config@,
            user: self.daemon_username@,
            home: self.home_dir@,
            keys: self.authorized_keys@,
            admission: self.admission@,
            limiter: self.log_limiter@,
        }
    }
}

/// The time in which a repeated warning is left out.
pub const LOG_WINDOW_SECS: u64 = 30;

/// The number of warnings that are told apart.
pub const LOG_MAX_ENTRIES: usize = 4096;

/// The warning about entries of the key file that are passed over, if there are
/// any.
pub open spec fn ignored_text(ignored: nat, path: Seq<char>) -> Seq<char> {
    "ignoring "@ + text::decimal(ignored) + " authorized_keys entr"@ + (if ignored == 1 {
        "y"@
    } else {
        "ies"@
    }) + " with unsupported options in "@ + native_paths::shown(path)
        + "; narrowd accepts only plain key lines"@
}

/// The warning about entries of the key file that are passed over, if there are
/// any.
pub fn ignored_entries_warning(ignored: usize, path: &str) -> (r: Option<String>)
    ensures
        match r {
            Some(text) => ignored > 0 && text@ == ignored_text(ignored as nat, path@),
            None => ignored == 0,
        },
{
    if ignored == 0 {
        return None;
    }
    let number = text::decimal_of(ignored as u64);
    let mut out = values::sentence("ignoring ", number.as_str());
    out.append(" authorized_keys entr");
    out.append(
        if ignored == 1 {
            "y"
        } else {
            "ies"
        },
    );
    out.append(" with unsupported options in ");
    out.append(native_paths::show_path(path).as_str());
    out.append("; narrowd accepts only plain key lines");
    Some(out)
}

/// The warning about a key file that does not exist.
pub fn missing_keys_warning(path: &str) -> (r: String)
    ensures
        r@ == "authorized keys file "@ + native_paths::shown(path@)
            + " does not exist yet; all public-key auth will be rejected until it is created"@,
{
    let mut out = native_paths::naming("authorized keys file ", path);
    out.append(
        " does not exist yet; all public-key auth will be rejected until it is created",
    );
    out
}

/// What the daemon learns from the system before it starts.
#[derive(Debug)]
pub struct BootstrapFacts {
    pub home_dir: Option<String>,
    pub daemon_username: String,
    pub host_key_algorithm: russh::keys::ssh_key::Algorithm,
    /// The key file as it was read.
    pub keys_file: KeysFile,
    pub keys_file_exists: bool,
}

/// The store that the daemon starts with: the key file's keys, or none if there
/// is no such file.
pub open spec fn initial_store(config: ConfigView, file: KeysFile, exists_now: bool, now: Instant) -> Result<
    StoreView,
    KeysErrorView,
> {
    let path = config.authorized_keys_file;
    let empty = StoreView {
        path,
        max_size: config.authorized_keys_max_size,
        max_entries: config.authorized_keys_max_entries,
        reload_interval: config.authorized_keys_reload_interval,
        cache: authorized_keys::CacheView { keys: Seq::empty(), ignored: 0 },
        generation: 0,
        observed: authorized_keys::AuthorizedKeysFingerprint::of_missing(),
        last_failed: None,
        status: ReloadStatusView::Missing,
        next_check_at: (now.nanos + config.authorized_keys_reload_interval.total()) as nat,
    };
    match authorized_keys::file_outcome(
        file,
        path,
        config.authorized_keys_max_size as nat,
        config.authorized_keys_max_entries as nat,
    ) {
        Ok((cache, fingerprint)) => Ok(
            StoreView {
                cache,
                generation: 1,
                observed: fingerprint,
                status: ReloadStatusView::Loaded,
                ..empty
            },
        ),
        Err(e) => if exists_now {
            Err(e)
        } else {
            Ok(empty)
        },
    }
}

/// The limits on connections that the settings ask for.
pub open spec fn admission_limits(config: ConfigView) -> AdmissionConfig {
    AdmissionConfig {
        max_unauth_connections_global: config.max_unauth_connections_global,
        max_unauth_connections_per_ip: config.max_unauth_connections_per_ip,
        max_unauth_connections_per_subnet: config.max_unauth_connections_per_subnet,
        new_connections_per_minute_per_ip: config.new_connections_per_minute_per_ip,
        new_connections_burst_per_ip: config.new_connections_burst_per_ip,
        auth_failure_ban_threshold: config.auth_failure_ban_threshold,
        auth_failure_ban_window: config.auth_failure_ban_window,
        auth_failure_ban_duration: config.auth_failure_ban_duration,
    }
}

/// What keeps the daemon from starting, if anything does.
pub open spec fn obstacle(config: ConfigView, facts: BootstrapFacts, now: Instant) -> Option<
    BootstrapErrorView,
> {
    if facts.home_dir is None {
        Some(BootstrapErrorView::HomeUnknown)
    } else {
        match initial_store(config, facts.keys_file, facts.keys_file_exists, now) {
            Err(e) => Some(BootstrapErrorView::Keys(e)),
            Ok(_) => if facts.host_key_algorithm is Ed25519 {
                None
            } else {
                Some(BootstrapErrorView::HostKeyNotEd25519 { path: config.host_key })
            },
        }
    }
}

impl AppState {
    /// Starts the daemon's state, with what is to be warned about.
    pub fn bootstrap(config: AppConfig, facts: BootstrapFacts, now: Instant) -> (r: Result<
        (Self, Vec<String>),
        BootstrapError,
    >)
        ensures
            match r {
                Err(e) => obstacle(config@, facts, now) == Some(e@),
                Ok((state, warnings)) => {
                    let store = initial_store(
                        config@,
                        facts.keys_file,
                        facts.keys_file_exists,
                        now,
                    )->Ok_0;
                    &&& obstacle(config@, facts, now) is None
                    &&& state@.config == config@
                    &&& state@.user == facts.daemon_username@
                    &&& state@.home == facts.home_dir->0@
                    &&& state@.keys == store
                    &&& state@.admission == AdmissionView::initial(admission_limits(config@))
                    &&& state@.limiter == (LimiterView {
                        window: Duration { secs: LOG_WINDOW_SECS, nanos: 0 },
                        max_entries: LOG_MAX_ENTRIES,
                        records: Seq::empty(),
                        last_cleanup: now,
                    })
                    &&& warnings@.len() == (if store.generation == 0 {
                        1int
                    } else {
                        0
                    }) + (if store.cache.ignored > 0 {
                        1int
                    } else {
                        0
                    })
                    &&& store.generation == 0 ==> warnings@[0]@ == "authorized keys file "@
                        + native_paths::shown(config@.authorized_keys_file)
                        + " does not exist yet; all public-key auth will be rejected until it is created"@
                    &&& store.cache.ignored > 0 ==> warnings@.last()@ == ignored_text(
                        store.cache.ignored,
                        config@.authorized_keys_file,
                    )
                },
            },
    {
        let home_dir = match facts.home_dir {
            Some(home) => home,
            None => {
                return Err(BootstrapError::HomeUnknown);
            },
        };
        let mut warnings: Vec<String> = Vec::new();
        let path = config.authorized_keys_file.as_str();
        let authorized_keys = match AuthorizedKeysStore::load(
            String::from_str(path),
            config.authorized_keys_max_size,
            config.authorized_keys_max_entries,
            config.authorized_keys_reload_interval,
            facts.keys_file,
            now,
        ) {
            Ok(store) => store,
            Err(e) => {
                if facts.keys_file_exists {
                    return Err(BootstrapError::Keys(e));
                }
                warnings.push(missing_keys_warning(path));
                AuthorizedKeysStore::empty_missing(
                    String::from_str(path),
                    config.authorized_keys_max_size,
                    config.authorized_keys_max_entries,
                    config.authorized_keys_reload_interval,
                    now,
                )
            },
        };
        match facts.host_key_algorithm {
            russh::keys::ssh_key::Algorithm::Ed25519 => {},
            _ => {
                return Err(
                    BootstrapError::HostKeyNotEd25519 {
                        path: String::from_str(config.host_key.as_str()),
                    },
                );
            },
        }
        match ignored_entries_warning(authorized_keys.status().ignored_entries, path) {
            Some(warning) => {
                warnings.push(warning);
            },
            None => {},
        }
        let admission = AdmissionController::new(AdmissionConfig::from_app_config(&config));
        let log_limiter = LogLimiter::new(
            Duration::from_secs(LOG_WINDOW_SECS),
            LOG_MAX_ENTRIES,
            now,
        );
        Ok(
            (
                AppState {
                    config,
                    daemon_username: facts.daemon_username,
                    home_dir,
                    authorized_keys,
                    admission,
                    log_limiter,
                },
                warnings,
            ),
        )
    }
}

/// A warning as it is logged: with the number of those like it that were left
/// out, or not at all.
pub open spec fn limited_text(decision: LogDecision, message: Seq<char>, window: Duration) -> Option<
    Seq<char>,
> {
    match decision {
        LogDecision::Suppress => None,
        LogDecision::Emit { suppressed } => if suppressed == 0 {
            Some(message)
        } else {
            Some(
                message + "; suppressed "@ + text::decimal(suppressed as nat)
                    + " similar messages in the last "@ + time::span_text(window),
            )
        },
    }
}

/// The text of an optional string.
pub open spec fn text_of(s: Option<String>) -> Option<Seq<char>> {
    match s {
        Some(s) => Some(s@),
        None => None,
    }
}

impl StateView {
    /// What comes of a warning: the state after it, and the text that is
    /// logged.
    pub open spec fn warned(
        self,
        peer_ip: Option<IpAddr>,
        category: Seq<char>,
        message: Seq<char>,
        now: Instant,
    ) -> (StateView, Option<Seq<char>>) {
        let (limiter, decision) = self.limiter.checked((peer_ip, category), now);
        (
            StateView { limiter, ..self },
            limited_text(decision, message, self.limiter.window),
        )
    }
}

/// The text that reports a failed login.
pub open spec fn rejection_text(
    user: Seq<char>,
    category: Seq<char>,
    reason: Seq<char>,
    peer: Option<Seq<char>>,
    banned: bool,
) -> Seq<char> {
    "event=auth_rejected category="@ + category + " rejected authentication for requested user "@
        + user + (match peer {
        Some(label) => " from "@ + label,
        None => Seq::empty(),
    }) + ": "@ + reason + (if banned {
        "; peer temporarily banned"@
    } else {
        ""@
    })
}

fn rejection_words(
    user: &str,
    category: &str,
    reason: &str,
    peer: &Option<Peer>,
    banned: bool,
) -> (r: String)
    ensures
        r@ == rejection_text(
            user@,
            category@,
            reason@,
            match *peer {
                Some(peer) => Some(peer.label@),
                None => None,
            },
            banned,
        ),
{
    let mut out = values::sentence("event=auth_rejected category=", category);
    out.append(" rejected authentication for requested user ");
    out.append(user);
    match peer {
        Some(peer) => {
            let ghost before = out@;
            out.append(" from ");
            out.append(peer.label.as_str());
            assert(out@ =~= before + (" from "@ + peer.label@));
        },
        None => {
            assert(out@ + Seq::<char>::empty() =~= out@);
        },
    }
    out.append(": ");
    out.append(reason);
    out.append(
        if banned {
            "; peer temporarily banned"
        } else {
            ""
        },
    );
    out
}

/// The label of a peer, if it is known.
pub open spec fn known_label(peer: Option<Peer>) -> Option<Seq<char>> {
    match peer {
        Some(peer) => Some(peer.label@),
        None => None,
    }
}

impl StateView {
    /// What comes of a failed login: the state after it, and the text that is
    /// logged.
    pub open spec fn auth_failed(
        self,
        peer: Option<Peer>,
        user: Seq<char>,
        category: Seq<char>,
        reason: Seq<char>,
        now: Instant,
    ) -> (StateView, Option<Seq<char>>) {
        match ip_of(peer) {
            None => self.warned(
                None,
                category,
                rejection_text(user, category, reason, None, false),
                now,
            ),
            Some(ip) => {
                let (admission, banned) = self.admission.failed(ip, now);
                (StateView { admission, ..self }).warned(
                    Some(ip),
                    category,
                    rejection_text(user, category, reason, known_label(peer), banned),
                    now,
                )
            },
        }
    }
}

/// A key that a client offers.
#[derive(Debug)]
pub struct OfferedKey {
    pub algorithm: russh::keys::ssh_key::Algorithm,
    /// The algorithm in words.
    pub algorithm_shown: String,
    /// The key's encoding, if it has one.
    pub encoded: Option<Vec<u8>>,
}

/// What a login with a key comes to.
#[derive(Debug)]
pub struct AuthAnswer {
    pub accepted: bool,
    /// What is to be logged, if anything.
    pub log: Option<String>,
}

/// Whether a key may log in for a user.
pub open spec fn may_log_in(state: StateView, user: Seq<char>, key: OfferedKey) -> bool {
    &&& user == state.user
    &&& algorithm_allowed(key.algorithm)
    &&& key.encoded matches Some(blob) && state.keys.cache.keys.contains(blob@)
}

/// What a login with a key leads to: the state after it, and whether it
/// succeeds together with the text that is logged, or the error.
pub open spec fn key_login(
    state: StateView,
    peer: Option<Peer>,
    user: Seq<char>,
    key: OfferedKey,
    now: Instant,
) -> (StateView, Result<(bool, Option<Seq<char>>), KeysErrorView>) {
    if user != state.user {
        let (after, log) = state.auth_failed(
            peer,
            user,
            "auth-reject-username"@,
            "requested login user does not match daemon user "@ + state.user,
            now,
        );
        (after, Ok((false, log)))
    } else if !algorithm_allowed(key.algorithm) {
        let (after, log) = state.auth_failed(
            peer,
            user,
            "auth-reject-key-algorithm"@,
            "unsupported public key algorithm "@ + key.algorithm_shown@,
            now,
        );
        (after, Ok((false, log)))
    } else {
        match key.encoded {
            None => (state, Err(KeysErrorView::BadOfferedKey)),
            Some(blob) => if state.keys.cache.keys.contains(blob@) {
                (
                    state,
                    Ok(
                        (
                            true,
                            Some(
                                "accepted public key for requested user "@ + user + " from "@
                                    + label_of(peer),
                            ),
                        ),
                    ),
                )
            } else {
                let (after, log) = state.auth_failed(
                    peer,
                    user,
                    "auth-reject-unknown-key"@,
                    "public key not present in authorized_keys cache"@,
                    now,
                );
                (after, Ok((false, log)))
            },
        }
    }
}

/// What the result of a login stands for.
pub open spec fn login_outcome(r: Result<AuthAnswer, KeysError>) -> Result<
    (bool, Option<Seq<char>>),
    KeysErrorView,
> {
    match r {
        Ok(answer) => Ok((answer.accepted, text_of(answer.log))),
        Err(e) => Err(e@),
    }
}

impl AppState {
    /// Decides whether a warning is logged, and with which words.
    pub fn warn_limited(
        &mut self,
        peer_ip: Option<IpAddr>,
        category: &'static str,
        message: &str,
        now: Instant,
    ) -> (r: Option<String>)
        ensures
            (final(self)@, text_of(r)) == old(self)@.warned(peer_ip, category@, message@, now),
    {
        let window = self.log_limiter.window();
        match self.log_limiter.check_at(LogKey { peer_ip, category }, now) {
            LogDecision::Suppress => None,
            LogDecision::Emit { suppressed } => {
                if suppressed == 0 {
                    return Some(String::from_str(message));
                }
                let number = text::decimal_of(suppressed as u64);
                let span = window.shown();
                let mut out = values::sentence(message, "; suppressed ");
                out.append(number.as_str());
                out.append(" similar messages in the last ");
                out.append(span.as_str());
                Some(out)
            },
        }
    }

    /// Takes note of a failed login.
    pub fn record_auth_failure(
        &mut self,
        peer: &Option<Peer>,
        user: &str,
        category: &'static str,
        reason: &str,
        now: Instant,
    ) -> (r: Option<String>)
        ensures
            (final(self)@, text_of(r)) == old(self)@.auth_failed(
                *peer,
                user@,
                category@,
                reason@,
                now,
            ),
    {
        let ip = peer_ip(peer);
        let banned = match ip {
            Some(ip) => self.admission.record_auth_failure_at(ip, now),
            None => false,
        };
        let message = rejection_words(user, category, reason, peer, banned);
        self.warn_limited(ip, category, message.as_str(), now)
    }

    /// Decides on a login with a key.
    pub fn authorize_key(
        &mut self,
        peer: &Option<Peer>,
        user: &str,
        key: &OfferedKey,
        now: Instant,
    ) -> (r: Result<AuthAnswer, KeysError>)
        ensures
            (final(self)@, login_outcome(r)) == key_login(old(self)@, *peer, user@, *key, now),
    {
        if !login_user_matches_daemon(user, self.daemon_username.as_str()) {
            let reason = values::sentence(
                "requested login user does not match daemon user ",
                self.daemon_username.as_str(),
            );
            let log = self.record_auth_failure(
                peer,
                user,
                "auth-reject-username",
                reason.as_str(),
                now,
            );
            return Ok(AuthAnswer { accepted: false, log });
        }
        if !is_user_key_algorithm_allowed(&key.algorithm) {
            let reason = values::sentence(
                "unsupported public key algorithm ",
                key.algorithm_shown.as_str(),
            );
            let log = self.record_auth_failure(
                peer,
                user,
                "auth-reject-key-algorithm",
                reason.as_str(),
                now,
            );
            return Ok(AuthAnswer { accepted: false, log });
        }
        match self.authorized_keys.contains(&key.encoded) {
            Err(e) => Err(e),
            Ok(found) => {
                if found {
                    let mut text = values::sentence(
                        "accepted public key for requested user ",
                        user,
                    );
                    text.append(" from ");
                    let label = peer_label(peer);
                    text.append(label.as_str());
                    return Ok(AuthAnswer { accepted: true, log: Some(text) });
                }
                let log = self.record_auth_failure(
                    peer,
                    user,
                    "auth-reject-unknown-key",
                    "public key not present in authorized_keys cache",
                    now,
                );
                Ok(AuthAnswer { accepted: false, log })
            },
        }
    }

    /// Turns down a login with a password; what comes back is to be logged.
    pub fn auth_password(&mut self, peer: &Option<Peer>, user: &str, now: Instant) -> (r: Option<
        String,
    >)
        ensures
            (final(self)@, text_of(r)) == old(self)@.auth_failed(
                *peer,
                user@,
                "auth-reject-password"@,
                "password authentication is disabled"@,
                now,
            ),
    {
        self.record_auth_failure(
            peer,
            user,
            "auth-reject-password",
            "password authentication is disabled",
            now,
        )
    }
}

/// A login succeeds exactly with a key of an allowed algorithm that the key file
/// lists without options, for the user that the daemon runs as.
pub proof fn law_only_listed_keys_log_in(
    state: StateView,
    peer: Option<Peer>,
    user: Seq<char>,
    key: OfferedKey,
    now: Instant,
)
    ensures
        may_log_in(state, user, key) <==> (key_login(state, peer, user, key, now).1 matches Ok(
            (accepted, _),
        ) && accepted),
        may_log_in(state, user, key) ==> key_login(state, peer, user, key, now).0 == state,
{
}

/// The key file decides who may log in: with the keys of a file in force, at the
/// start or after it has been read again, a key may log in exactly if the file
/// has an entry without options for it.
pub proof fn law_key_file_decides(
    state: StateView,
    text: String,
    modified: Option<i128>,
    len: u64,
    fingerprint: authorized_keys::AuthorizedKeysFingerprint,
    user: Seq<char>,
    key: OfferedKey,
    blob: Vec<u8>,
)
    requires
        authorized_keys::file_outcome(
            KeysFile::Opened { modified, len, text: Some(text) },
            state.keys.path,
            state.keys.max_size as nat,
            state.keys.max_entries as nat,
        ) == Ok::<
            (authorized_keys::CacheView, authorized_keys::AuthorizedKeysFingerprint),
            KeysErrorView,
        >((state.keys.cache, fingerprint)),
        user == state.user,
        algorithm_allowed(key.algorithm),
        key.encoded == Some(blob),
    ensures
        may_log_in(state, user, key) <==> exists|i: int|
            0 <= i < authorized_keys::authorized_keys_entries(text@).len()
                && authorized_keys::is_plain_key(
                #[trigger] authorized_keys::authorized_keys_entries(text@)[i],
                blob@,
            ),
{
    let entries = authorized_keys::authorized_keys_entries(text@);
    authorized_keys::law_only_plain_entries_are_accepted(
        entries,
        entries.len(),
        state.keys.max_entries as nat,
    );
}

/// A login that fails is held against its address, whatever it fails for: the
/// wrong user, algorithm and key cost the same.
pub proof fn law_failures_cost_the_same(
    state: StateView,
    peer: Option<Peer>,
    user: Seq<char>,
    key: OfferedKey,
    now: Instant,
)
    requires
        peer is Some,
    ensures
        key_login(state, peer, user, key, now).1 matches Ok((accepted, _)) && !accepted
            ==> key_login(state, peer, user, key, now).0.admission == state.admission.failed(
            peer->0.ip,
            now,
        ).0,
{
}

/// No login changes the keys that may log in.
pub proof fn law_logins_leave_keys_alone(
    state: StateView,
    peer: Option<Peer>,
    user: Seq<char>,
    key: OfferedKey,
    now: Instant,
)
    ensures
        key_login(state, peer, user, key, now).0.keys == state.keys,
        key_login(state, peer, user, key, now).0.user == state.user,
{
}

/// A login is accepted exactly for the user that the daemon runs as, with an
/// Ed25519 key or one of that family on a security key, whose encoding is among
/// the keys in force. A key of any other kind is turned down though it is listed.
pub proof fn law_only_ed25519_keys_log_in(
    state: &mut AppState,
    peer: &Option<Peer>,
    user: &str,
    key: &OfferedKey,
    now: Instant,
    answer: Result<AuthAnswer, KeysError>,
)
    requires
        call_ensures(AppState::authorize_key, (state, peer, user, key, now), answer),
    ensures
        (answer is Ok && answer->Ok_0.accepted) <==> {
            &&& user@ == old(state)@.user
            &&& key.algorithm is Ed25519 || key.algorithm is SkEd25519
            &&& key.encoded is Some
            &&& exists|i: int|
                0 <= i < old(state)@.keys.cache.keys.len()
                    && #[trigger] old(state)@.keys.cache.keys[i] == key.encoded->0@
        },
        answer is Err ==> user@ == old(state)@.user && key.encoded is None && (
        key.algorithm is Ed25519 || key.algorithm is SkEd25519),
        final(state)@.config == old(state)@.config,
        final(state)@.user == old(state)@.user,
        final(state)@.home == old(state)@.home,
        final(state)@.keys == old(state)@.keys,
{
}

/// A login that is not accepted counts once against the address it came from,
/// and is logged under what it failed for; one that is accepted, or that comes
/// from nowhere known, counts against nobody.
pub proof fn law_failed_logins_are_held_against_the_peer(
    state: StateView,
    peer: Option<Peer>,
    user: Seq<char>,
    key: OfferedKey,
    now: Instant,
)
    ensures
        ({
            let (after, outcome) = key_login(state, peer, user, key, now);
            let failed = outcome is Ok && !outcome->Ok_0.0;
            let ip = match peer {
                Some(peer) => Some(peer.ip),
                None => None,
            };
            &&& failed && peer is Some ==> after.admission == state.admission.failed(
                peer->0.ip,
                now,
            ).0
            &&& !failed || peer is None ==> after.admission == state.admission
            &&& !failed ==> after.limiter == state.limiter
            &&& failed ==> after.limiter == state.limiter.checked(
                (
                    ip,
                    if user != state.user {
                        "auth-reject-username"@
                    } else if key.algorithm is Ed25519 || key.algorithm is SkEd25519 {
                        "auth-reject-unknown-key"@
                    } else {
                        "auth-reject-key-algorithm"@
                    },
                ),
                now,
            ).0
        }),
{
}

/// A password never logs in, and counts as a failed login like any other.
pub proof fn law_passwords_count_as_failures(
    state: &mut AppState,
    peer: &Option<Peer>,
    user: &str,
    now: Instant,
    log: Option<String>,
)
    requires
        call_ensures(AppState::auth_password, (state, peer, user, now), log),
    ensures
        peer matches Some(peer) ==> final(state)@.admission == old(state)@.admission.failed(
            peer.ip,
            now,
        ).0,
        peer is None ==> final(state)@.admission == old(state)@.admission,
        final(state)@.limiter == old(state)@.limiter.checked(
            (
                if peer is Some {
                    Some(peer->0.ip)
                } else {
                    None
                },
                "auth-reject-password"@,
            ),
            now,
        ).0,
        final(state)@.keys == old(state)@.keys,
{
}

/// A warning is logged or held back by its address and kind alone; what is
/// logged begins with the warning, is nothing but the warning where none like it
/// was held back, and only the record of warnings changes.
pub proof fn law_warnings_are_limited_by_address_and_kind(
    state: &mut AppState,
    peer_ip: Option<IpAddr>,
    category: &'static str,
    message: &str,
    now: Instant,
    logged: Option<String>,
)
    requires
        call_ensures(AppState::warn_limited, (state, peer_ip, category, message, now), logged),
    ensures
        ({
            let (limiter, decision) = old(state)@.limiter.checked((peer_ip, category@), now);
            &&& final(state)@.limiter == limiter
            &&& final(state)@.admission == old(state)@.admission
            &&& final(state)@.keys == old(state)@.keys
            &&& final(state)@.config == old(state)@.config
            &&& decision is Suppress <==> logged is None
            &&& decision matches LogDecision::Emit { suppressed } ==> {
                &&& logged is Some
                &&& message@.len() <= logged->0@.len()
                &&& logged->0@.take(message@.len() as int) == message@
                &&& suppressed == 0 <==> logged->0@ == message@
            }
        }),
{
    reveal_strlit("; suppressed ");
    let (limiter, decision) = old(state)@.limiter.checked((peer_ip, category@), now);
    if decision is Emit {
        assert(logged->0@.take(message@.len() as int) =~= message@);
    }
}

/// The protocol is spoken by the settings, each by the one of its name, and
/// nobody gets in but with a public key.
pub proof fn law_protocol_follows_the_settings(config: &AppConfig, r: SshSettings)
    requires
        call_ensures(build_ssh_config, (config,), r),
    ensures
        forall|i: int| 0 <= i < r.methods@.len() ==> #[trigger] r.methods@[i] is PublicKey,
        r.methods@.len() == 1,
        r.auth_rejection_time == config@.auth_rejection_time,
        r.auth_rejection_time_initial == Some(config@.auth_rejection_time),
        r.max_auth_attempts == config@.max_auth_attempts,
        r.inactivity_timeout == Some(config@.inactivity_timeout),
        r.keepalive_interval == Some(config@.keepalive_interval),
        r.keepalive_max == config@.keepalive_max,
        r.nodelay == config@.nodelay,
        r.channel_buffer_size == config@.channel_buffer_size,
        r.event_buffer_size == config@.event_buffer_size,
        r.window_size == config@.window_size,
        r.maximum_packet_size == config@.maximum_packet_size,
{
}

/// Only modern algorithms are offered: elliptic curves and the hybrid key
/// exchange, with its protection of the handshake, Ed25519 host keys, ciphers
/// that are authenticated or in counter mode, digests of the second generation,
/// and no compression. The strongest comes first.
pub proof fn law_only_modern_algorithms_are_offered(p: PreferredAlgorithms, i: int)
    requires
        call_ensures(public_exposure_preferred, (), p),
    ensures
        0 <= i < p.kex@.len() ==> p.kex@[i]@ == "mlkem768x25519-sha256"@ || p.kex@[i]@
            == "curve25519-sha256"@ || p.kex@[i]@ == "curve25519-sha256@libssh.org"@ || p.kex@[i]@
            == "ext-info-s"@ || p.kex@[i]@ == "kex-strict-s-v00@openssh.com"@,
        p.kex@.len() == 5,
        p.kex@[0]@ == "mlkem768x25519-sha256"@,
        p.kex@[1]@ == "curve25519-sha256"@,
        p.kex@[4]@ == "kex-strict-s-v00@openssh.com"@,
        0 <= i < p.key@.len() ==> p.key@[i]@ == "ssh-ed25519"@ || p.key@[i]@
            == "sk-ssh-ed25519@openssh.com"@,
        p.key@.len() == 2,
        p.key@[0]@ == "ssh-ed25519"@,
        0 <= i < p.cipher@.len() ==> p.cipher@[i]@ == "chacha20-poly1305@openssh.com"@
            || p.cipher@[i]@ == "aes256-gcm@openssh.com"@ || p.cipher@[i]@ == "aes256-ctr"@
            || p.cipher@[i]@ == "aes128-ctr"@,
        p.cipher@.len() == 4,
        p.cipher@[0]@ == "chacha20-poly1305@openssh.com"@,
        p.cipher@[1]@ == "aes256-gcm@openssh.com"@,
        0 <= i < p.mac@.len() ==> p.mac@[i]@ == "hmac-sha2-512-etm@openssh.com"@ || p.mac@[i]@
            == "hmac-sha2-256-etm@openssh.com"@ || p.mac@[i]@ == "hmac-sha2-512"@ || p.mac@[i]@
            == "hmac-sha2-256"@,
        p.mac@.len() == 4,
        p.mac@[0]@ == "hmac-sha2-512-etm@openssh.com"@,
        p.compression@.len() == 1,
        p.compression@[0]@ == "none"@,
{
    let kex = names(p.kex@);
    let key = names(p.key@);
    let cipher = names(p.cipher@);
    let mac = names(p.mac@);
    let compression = names(p.compression@);
    assert(kex.len() == p.kex@.len());
    assert(kex[0] == p.kex@[0]@);
    assert(kex[1] == p.kex@[1]@);
    assert(kex[4] == p.kex@[4]@);
    assert(key.len() == p.key@.len());
    assert(key[0] == p.key@[0]@);
    assert(cipher.len() == p.cipher@.len());
    assert(cipher[0] == p.cipher@[0]@);
    assert(cipher[1] == p.cipher@[1]@);
    assert(mac.len() == p.mac@.len());
    assert(mac[0] == p.mac@[0]@);
    assert(compression.len() == p.compression@.len());
    assert(compression[0] == p.compression@[0]@);
    assert(0 <= i < kex.len() ==> kex[i] == p.kex@[i]@);
    assert(0 <= i < key.len() ==> key[i] == p.key@[i]@);
    assert(0 <= i < cipher.len() ==> cipher[i] == p.cipher@[i]@);
    assert(0 <= i < mac.len() ==> mac[i] == p.mac@[i]@);
}

/// The daemon's user is the one that the system knows by its number.
pub proof fn law_daemon_user_is_looked_up(
    uid: u32,
    lookup: UserLookup,
    r: Result<String, BootstrapError>,
)
    requires
        call_ensures(daemon_username, (uid, lookup), r),
    ensures
        lookup matches UserLookup::Found(name) ==> r is Ok && r->Ok_0@ == name@,
        !(lookup is Found) ==> r is Err,
        lookup is NoEntry ==> r->Err_0@ == (BootstrapErrorView::NoSuchUser { uid }),
        lookup is Failed ==> r->Err_0@ is UserLookupFailed,
{
}

/// The daemon starts exactly if the home directory is known, the key file can be
/// used or is not there, and the host key is an Ed25519 key. What it starts with
/// is what it was told: the settings, the user, the home directory and, as far
/// as they ask for it, the limits; nobody has been admitted, and no warning
/// logged.
pub proof fn law_daemon_starts_with_what_it_was_told(
    config: AppConfig,
    facts: BootstrapFacts,
    now: Instant,
    r: Result<(AppState, Vec<String>), BootstrapError>,
)
    requires
        call_ensures(AppState::bootstrap, (config, facts, now), r),
    ensures
        ({
            let outcome = authorized_keys::file_outcome(
                facts.keys_file,
                config@.authorized_keys_file,
                config@.authorized_keys_max_size as nat,
                config@.authorized_keys_max_entries as nat,
            );
            let usable = outcome is Ok || !facts.keys_file_exists;
            &&& r is Ok <==> facts.home_dir is Some && usable
                && facts.host_key_algorithm is Ed25519
            &&& facts.home_dir is None ==> r->Err_0@ is HomeUnknown
            &&& facts.home_dir is Some && !usable ==> r->Err_0@ == BootstrapErrorView::Keys(
                outcome->Err_0,
            )
            &&& facts.home_dir is Some && usable && !(facts.host_key_algorithm is Ed25519)
                ==> r->Err_0@ == (BootstrapErrorView::HostKeyNotEd25519 { path: config@.host_key })
            &&& r matches Ok((state, warnings)) ==> {
                &&& state@.config == config@
                &&& state@.user == facts.daemon_username@
                &&& state@.home == facts.home_dir->0@
                &&& outcome is Ok ==> state@.keys.cache == outcome->Ok_0.0
                    && state@.keys.generation == 1
                &&& outcome is Err ==> state@.keys.cache.keys.len() == 0
                    && state@.keys.generation == 0 && state@.keys.observed.missing
                &&& state@.keys.path == config@.authorized_keys_file
                &&& state@.keys.max_size == config@.authorized_keys_max_size
                &&& state@.keys.max_entries == config@.authorized_keys_max_entries
                &&& state@.keys.reload_interval == config@.authorized_keys_reload_interval
                &&& state@.keys.next_check_at == now.nanos
                    + config@.authorized_keys_reload_interval.secs * 1_000_000_000
                    + config@.authorized_keys_reload_interval.nanos
                &&& state@.limiter.window.secs == 30 && state@.limiter.window.nanos == 0
                &&& state@.limiter.max_entries == 4096
                &&& state@.limiter.records.len() == 0
                &&& warnings@.len() == 0 <==> outcome is Ok && outcome->Ok_0.0.ignored == 0
            }
        }),
{
}

/// Each limit on connections is the setting of its name.
pub proof fn law_limits_are_the_settings(
    config: AppConfig,
    facts: BootstrapFacts,
    now: Instant,
    r: Result<(AppState, Vec<String>), BootstrapError>,
)
    requires
        call_ensures(AppState::bootstrap, (config, facts, now), r),
        r is Ok,
    ensures
        ({
            let limits = r->Ok_0.0@.admission.config;
            &&& limits.max_unauth_connections_global == config@.max_unauth_connections_global
            &&& limits.max_unauth_connections_per_ip == config@.max_unauth_connections_per_ip
            &&& limits.max_unauth_connections_per_subnet
                == config@.max_unauth_connections_per_subnet
            &&& limits.new_connections_per_minute_per_ip
                == config@.new_connections_per_minute_per_ip
            &&& limits.new_connections_burst_per_ip == config@.new_connections_burst_per_ip
            &&& limits.auth_failure_ban_threshold == config@.auth_failure_ban_threshold
            &&& limits.auth_failure_ban_window == config@.auth_failure_ban_window
            &&& limits.auth_failure_ban_duration == config@.auth_failure_ban_duration
        }),
{
}

/// Why the daemon does not start is told in words that name the key or the user.
pub proof fn law_start_errors_are_told_in_words(e: BootstrapError, words: String)
    requires
        call_ensures(BootstrapError::message, (&e,), words),
    ensures
        e is HomeUnknown <==> e@ is HomeUnknown,
        e is Keys <==> e@ is Keys,
        e is HostKeyNotEd25519 <==> e@ is HostKeyNotEd25519,
        e is UserLookupFailed <==> e@ is UserLookupFailed,
        e is NoSuchUser <==> e@ is NoSuchUser,
        words@ == (match e@ {
            BootstrapErrorView::HomeUnknown => "unable to determine home directory"@,
            BootstrapErrorView::Keys(e) => e.message(),
            BootstrapErrorView::HostKeyNotEd25519 { path } => "host key "@
                + native_paths::shown(path) + " must be an Ed25519 key for the public exposure profile"@,
            BootstrapErrorView::UserLookupFailed =>
                "failed to resolve daemon user from current uid"@,
            BootstrapErrorView::NoSuchUser { uid } => "no passwd entry for daemon uid "@
                + text::decimal(uid as nat),
        }),
{
}

/// A login that is rejected is told with its category, the user that was asked
/// for, where it came from, why, and whether that brought on a ban; one that is
/// accepted with the user and where it came from.
pub proof fn law_logins_are_told_in_words(
    state: &mut AppState,
    peer: &Option<Peer>,
    user: &str,
    category: &'static str,
    reason: &str,
    now: Instant,
    line: Option<String>,
    logins: &mut AppState,
    key: &OfferedKey,
    r: Result<AuthAnswer, KeysError>,
)
    requires
        call_ensures(
            AppState::record_auth_failure,
            (state, peer, user, category, reason, now),
            line,
        ),
        old(state)@.limiter.records.len() == 0,
        call_ensures(AppState::authorize_key, (logins, peer, user, key, now), r),
    ensures
        line is Some,
        *peer is None ==> line->0@ == "event=auth_rejected category="@ + category@
            + " rejected authentication for requested user "@ + user@ + ": "@ + reason@,
        *peer is Some ==> line->0@ == "event=auth_rejected category="@ + category@
            + " rejected authentication for requested user "@ + user@ + " from "@ + (
        *peer)->0.label@ + ": "@ + reason@ + (if old(state)@.admission.failed((*peer)->0.ip, now).1 {
            "; peer temporarily banned"@
        } else {
            Seq::empty()
        }),
        r is Ok && r->Ok_0.accepted ==> r->Ok_0.log is Some && r->Ok_0.log->0@
            == "accepted public key for requested user "@ + user@ + " from "@ + (if *peer is Some {
            (*peer)->0.label@
        } else {
            "<unknown peer>"@
        }),
{
    reveal_strlit("");
    let none = Seq::<char>::empty();
    assert(""@ =~= none);
    let s = old(state)@;
    assert(s.limiter.cleaned(now).records.len() == 0);
    let start = "event=auth_rejected category="@ + category@
        + " rejected authentication for requested user "@ + user@;
    match *peer {
        None => {
            assert(line->0@ == start + none + ": "@ + reason@ + ""@);
            assert(line->0@ =~= start + ": "@ + reason@);
        },
        Some(p) => {
            let banned = s.admission.failed(p.ip, now).1;
            let end = if banned {
                "; peer temporarily banned"@
            } else {
                ""@
            };
            assert(line->0@ == start + (" from "@ + p.label@) + ": "@ + reason@ + end);
            assert(line->0@ =~= start + " from "@ + p.label@ + ": "@ + reason@ + end);
        },
    }
}

/// The daemon warns at its start of a key file that is not there, and of entries
/// in it that are left out, by their number; a peer that is not known has a name
/// too.
pub proof fn law_key_file_is_warned_of(
    ignored: usize,
    path: &str,
    left_out: Option<String>,
    missing: String,
    peer: &Option<Peer>,
    label: String,
    shown_as: String,
)
    requires
        call_ensures(ignored_entries_warning, (ignored, path), left_out),
        call_ensures(missing_keys_warning, (path,), missing),
        call_ensures(peer_label, (peer,), label),
        call_ensures(native_paths::show_path, (path,), shown_as),
    ensures
        left_out is Some <==> ignored > 0,
        ignored > 0 ==> left_out->0@ == "ignoring "@ + text::decimal(ignored as nat) + (if ignored
            == 1 {
            " authorized_keys entr"@ + "y"@
        } else {
            " authorized_keys entr"@ + "ies"@
        }) + " with unsupported options in "@ + shown_as@
            + "; narrowd accepts only plain key lines"@,
        missing@ == "authorized keys file "@ + shown_as@
            + " does not exist yet; all public-key auth will be rejected until it is created"@,
        *peer is Some ==> label@ == (*peer)->0.label@,
        *peer is None ==> label@ == "<unknown peer>"@,
{
    if ignored > 0 {
        let number = "ignoring "@ + text::decimal(ignored as nat);
        let front = " authorized_keys entr"@;
        let end = if ignored == 1 {
            "y"@
        } else {
            "ies"@
        };
        assert(number + front + end =~= number + (front + end));
    }
}

} // verus!
