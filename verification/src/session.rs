//! What a client that has logged in asks for: channels, processes, files and
//! forwarded ports.
use std::collections::HashMap;

use vstd::prelude::*;
use vstd::string::*;

use crate::authorized_keys::KeysError;
use crate::config::AppConfig;
use crate::env;
use crate::env::EnvTable;
use crate::native_paths;
use crate::process;
use crate::process::{pty_size, ProcessRequest, SerializablePtyRequest, SerializablePtySize};
use crate::sshd;
use crate::sshd::{peer_label, AppState, AuthAnswer, OfferedKey, Peer};
use crate::text;
use crate::time::Instant;
use crate::values;

verus! {

/// Whether a client may set a variable of this name.
pub open spec fn env_allowed(name: Seq<char>) -> bool {
    name == "TERM"@ || name == "COLORTERM"@ || name == "LANG"@ || name == "TZ"@
        || text::has_prefix(name, "LC_"@)
}

pub fn is_env_allowed(name: &str) -> (r: bool)
    ensures
        r == env_allowed(name@),
{
    text::same_str(name, "TERM") || text::same_str(name, "COLORTERM") || text::same_str(
        name,
        "LANG",
    ) || text::same_str(name, "TZ") || text::begins_with(&text::chars_of(name), "LC_")
}

/// The variables that a client may set.
pub open spec fn permitted(m: Map<Seq<char>, Seq<char>>) -> Map<Seq<char>, Seq<char>> {
    Map::new(|k: Seq<char>| m.contains_key(k) && env_allowed(k), |k: Seq<char>| m[k])
}

/// The variables with one more, if that is not set yet.
pub open spec fn with_default(
    m: Map<Seq<char>, Seq<char>>,
    name: Seq<char>,
    value: Seq<char>,
) -> Map<Seq<char>, Seq<char>> {
    if m.contains_key(name) {
        m
    } else {
        m.insert(name, value)
    }
}

/// The environment of a session's process: what the client asked for as far as
/// it may, and the account's own variables.
pub open spec fn child_env(
    home: Seq<char>,
    user: Seq<char>,
    shell: Seq<char>,
    requested: Map<Seq<char>, Seq<char>>,
    term: Option<Seq<char>>,
) -> Map<Seq<char>, Seq<char>> {
    let account = with_default(
        with_default(
            with_default(
                with_default(permitted(requested), "HOME"@, native_paths::shown(home)),
                "USER"@,
                user,
            ),
            "LOGNAME"@,
            user,
        ),
        "SHELL"@,
        native_paths::shown(shell),
    );
    match term {
        Some(term) => with_default(account, "TERM"@, term),
        None => account,
    }
}

proof fn lemma_permitted_insert(m: Map<Seq<char>, Seq<char>>, name: Seq<char>, value: Seq<char>)
    ensures
        permitted(m.insert(name, value)) == (if env_allowed(name) {
            permitted(m).insert(name, value)
        } else {
            permitted(m)
        }),
{
    if env_allowed(name) {
        assert(permitted(m.insert(name, value)) =~= permitted(m).insert(name, value));
    } else {
        assert(permitted(m.insert(name, value)) =~= permitted(m));
    }
}

/// Builds the environment of a session's process.
pub fn build_child_env(
    home_dir: &str,
    daemon_username: &str,
    shell: &str,
    requested: &EnvTable,
    term: Option<&str>,
) -> (r: EnvTable)
    ensures
        r@ == child_env(
            home_dir@,
            daemon_username@,
            shell@,
            requested@,
            match term {
                Some(term) => Some(term@),
                None => None,
            },
        ),
{
    let mut out = EnvTable::new();
    let entries = requested.entries();
    let ghost list = env::assignment_texts(entries@);
    let mut i: usize = 0;
    assert(permitted(env::assigned(list.take(0))) =~= Map::<Seq<char>, Seq<char>>::empty());
    while i < entries.len()
        invariant
            i <= entries@.len(),
            list == env::assignment_texts(entries@),
            out@ == permitted(env::assigned(list.take(i as int))),
        decreases entries.len() - i,
    {
        let name = entries[i].0.as_str();
        let value = entries[i].1.as_str();
        proof {
            assert(list.take(i + 1).drop_last() =~= list.take(i as int));
            assert(list.take(i + 1).last() == (name@, value@));
            lemma_permitted_insert(env::assigned(list.take(i as int)), name@, value@);
        }
        if is_env_allowed(name) {
            out.set(name, value);
        }
        i = i + 1;
    }
    assert(list.take(list.len() as int) =~= list);
    out.set_default("HOME", native_paths::show_path(home_dir).as_str());
    out.set_default("USER", daemon_username);
    out.set_default("LOGNAME", daemon_username);
    out.set_default("SHELL", native_paths::show_path(shell).as_str());
    match term {
        Some(term) => {
            out.set_default("TERM", term);
        },
        None => {},
    }
    out
}

/// A client sets no variable but those that it may set: any other name in the
/// environment is the account's own, with the account's own value.
pub proof fn law_client_sets_only_permitted_variables(
    home: Seq<char>,
    user: Seq<char>,
    shell: Seq<char>,
    requested: Map<Seq<char>, Seq<char>>,
    term: Option<Seq<char>>,
    name: Seq<char>,
)
    requires
        !env_allowed(name),
        child_env(home, user, shell, requested, term).contains_key(name),
    ensures
        ({
            let value = child_env(home, user, shell, requested, term)[name];
            ||| name == "HOME"@ && value == native_paths::shown(home)
            ||| name == "USER"@ && value == user
            ||| name == "LOGNAME"@ && value == user
            ||| name == "SHELL"@ && value == native_paths::shown(shell)
        }),
{
    assert(!permitted(requested).contains_key(name));
    assert(env_allowed("TERM"@));
    reveal_strlit("HOME");
    reveal_strlit("USER");
    reveal_strlit("LOGNAME");
    reveal_strlit("SHELL");
    assert("HOME"@[0] != "USER"@[0]);
    assert("LOGNAME"@.len() != "USER"@.len());
    assert("SHELL"@.len() != "USER"@.len());
}

/// A channel on which nothing has been started yet.
#[derive(Debug)]
pub struct PendingChannel {
    pub pty: Option<SerializablePtyRequest>,
    pub env: EnvTable,
}

/// What a `PendingChannel` holds.
pub struct PendingView {
    /// The terminal that was asked for: its kind and size.
    pub pty: Option<(Seq<char>, SerializablePtySize)>,
    pub env: Map<Seq<char>, Seq<char>>,
}

/// What a request for a terminal says.
pub open spec fn pty_view(pty: Option<SerializablePtyRequest>) -> Option<
    (Seq<char>, SerializablePtySize),
> {
    match pty {
        Some(pty) => Some((pty.term@, pty.size)),
        None => None,
    }
}

impl View for PendingChannel {
    type V = PendingView;

    open spec fn view(&self) -> PendingView {
        PendingView { pty: pty_view(self.pty), env: self.env@ }
    }
}

/// Why a request of a client ends its connection.
#[derive(Clone, Copy, Debug, PartialEq, Eq, Structural)]
pub enum HandlerError {
    UnknownChannel { channel: u32 },
    InvalidForwardPort,
}

impl HandlerError {
    pub open spec fn text(self) -> Seq<char> {
        match self {
            HandlerError::UnknownChannel { channel } => "unknown channel ChannelId("@
                + text::decimal(channel as nat) + ")"@,
            HandlerError::InvalidForwardPort => "invalid tcpip-forward port"@,
        }
    }

    /// The error in words.
    pub fn message(self) -> (r: String)
        ensures
            r@ == self.text(),
    {
        match self {
            HandlerError::UnknownChannel { channel } => {
                let number = text::decimal_of(channel as u64);
                let mut out = values::sentence("unknown channel ChannelId(", number.as_str());
                out.append(")");
                out
            },
            HandlerError::InvalidForwardPort => String::from_str("invalid tcpip-forward port"),
        }
    }
}

/// A port that is listened on for a client.
#[derive(Debug)]
pub struct ForwardEntry {
    pub address: String,
    pub port: u32,
    /// The number under which the listening is kept.
    pub task: u64,
}

/// What the forwarded ports of a client are: the address and port asked for,
/// and the number of the listening.
pub open spec fn forward_views(list: Seq<ForwardEntry>) -> Seq<(Seq<char>, u32, u64)> {
    list.map_values(|e: ForwardEntry| (e.address@, e.port, e.task))
}

/// Where the forwarded port for an address stands; the number of entries if
/// there is none.
pub open spec fn forward_place(
    list: Seq<(Seq<char>, u32, u64)>,
    address: Seq<char>,
    port: u32,
) -> nat
    decreases list.len(),
{
    if list.len() == 0 || (list[0].0 == address && list[0].1 == port) {
        0
    } else {
        1 + forward_place(list.skip(1), address, port)
    }
}

proof fn lemma_forward_place(list: Seq<(Seq<char>, u32, u64)>, address: Seq<char>, port: u32)
    ensures
        forward_place(list, address, port) <= list.len(),
        forward_place(list, address, port) < list.len() ==> {
            let e = list[forward_place(list, address, port) as int];
            e.0 == address && e.1 == port
        },
        forall|j: int|
            0 <= j < forward_place(list, address, port) ==> !((#[trigger] list[j]).0 == address
                && list[j].1 == port),
    decreases list.len(),
{
    if list.len() > 0 && !(list[0].0 == address && list[0].1 == port) {
        let rest = list.skip(1);
        lemma_forward_place(rest, address, port);
        assert forall|j: int| 0 <= j < forward_place(list, address, port) implies !((
        #[trigger] list[j]).0 == address && list[j].1 == port) by {
            if j > 0 {
                assert(list[j] == rest[j - 1]);
            }
        }
    }
}

/// What a client has open.
pub struct ClientHandler {
    pending_channels: HashMap<u32, PendingChannel>,
    remote_forwards: Vec<ForwardEntry>,
    requested_user: Option<String>,
}

/// What a `ClientHandler` holds.
pub struct HandlerView {
    pub pending: Map<u32, PendingView>,
    pub forwards: Seq<(Seq<char>, u32, u64)>,
    /// The user that a login was last tried for.
    pub user: Option<Seq<char>>,
}

impl View for ClientHandler {
    type V = HandlerView;

    closed spec fn view(&self) -> HandlerView {
        HandlerView {
            pending: self.pending_channels@.map_values(|p: PendingChannel| p@),
            forwards: forward_views(self.remote_forwards@),
            user: sshd::text_of(self.requested_user),
        }
    }
}

/// What a request for a process says.
pub open spec fn asks_for(
    request: ProcessRequest,
    channel: PendingView,
    home: Seq<char>,
    user: Seq<char>,
    shell: Seq<char>,
    command: Option<Seq<char>>,
) -> bool {
    &&& pty_view(request.pty) == channel.pty
    &&& request.env@ == child_env(
        home,
        user,
        shell,
        channel.env,
        match channel.pty {
            Some((term, _)) => Some(term),
            None => None,
        },
    )
    &&& match (request.command, command) {
        (Some(a), Some(b)) => a@ == b,
        (None, None) => true,
        _ => false,
    }
}

/// Whether a request for a command leads from `before` to `after` and to `r`: it
/// is turned down where commands are not permitted, and uses up its channel.
pub open spec fn runs_command(
    before: HandlerView,
    after: HandlerView,
    state: sshd::StateView,
    channel: u32,
    command: Seq<char>,
    r: Result<Option<ProcessRequest>, HandlerError>,
) -> bool {
    match r {
        Ok(None) => !state.config.permit_exec && after == before,
        Ok(Some(request)) => {
            &&& state.config.permit_exec
            &&& before.pending.contains_key(channel)
            &&& asks_for(
                request,
                before.pending[channel],
                state.home,
                state.user,
                state.config.shell,
                Some(command),
            )
            &&& after == (HandlerView { pending: before.pending.remove(channel), ..before })
        },
        Err(e) => {
            &&& state.config.permit_exec
            &&& !before.pending.contains_key(channel)
            &&& e == (HandlerError::UnknownChannel { channel })
            &&& after == before
        },
    }
}

/// Asks for a process on a channel.
fn process_request(state: &AppState, channel: PendingChannel, command: Option<String>) -> (r:
    ProcessRequest)
    ensures
        asks_for(
            r,
            channel@,
            state@.home,
            state@.user,
            state@.config.shell,
            match command {
                Some(command) => Some(command@),
                None => None,
            },
        ),
{
    let term = match &channel.pty {
        Some(pty) => Some(pty.term.as_str()),
        None => None,
    };
    let env = build_child_env(
        state.home_dir.as_str(),
        state.daemon_username.as_str(),
        state.config.shell.as_str(),
        &channel.env,
        term,
    );
    ProcessRequest { pty: channel.pty, env, command }
}

impl ClientHandler {
    pub fn new() -> (r: Self)
        ensures
            r@ == (HandlerView { pending: Map::empty(), forwards: Seq::empty(), user: None }),
    {
        broadcast use vstd::std_specs::hash::group_hash_axioms;
        let r = ClientHandler {
            pending_channels: HashMap::new(),
            remote_forwards: Vec::new(),
            requested_user: None,
        };
        assert(r@.pending =~= Map::<u32, PendingView>::empty());
        assert(r@.forwards =~= Seq::<(Seq<char>, u32, u64)>::empty());
        r
    }

    /// A client offers a key; tells whether it may log in with it.
    pub fn authorize_key(
        &mut self,
        state: &mut AppState,
        peer: &Option<Peer>,
        user: &str,
        key: &OfferedKey,
        now: Instant,
    ) -> (r: Result<AuthAnswer, KeysError>)
        ensures
            (final(state)@, sshd::login_outcome(r)) == sshd::key_login(
                old(state)@,
                *peer,
                user@,
                *key,
                now,
            ),
            final(self)@ == (HandlerView { user: Some(user@), ..old(self)@ }),
    {
        self.requested_user = Some(String::from_str(user));
        state.authorize_key(peer, user, key, now)
    }

    /// What is logged of a login that has succeeded.
    pub fn auth_succeeded(&self, peer: &Option<Peer>) -> (r: String)
        ensures
            r@ == "session authenticated for requested user "@ + (match self@.user {
                Some(user) => user,
                None => "<unknown>"@,
            }) + " from "@ + sshd::label_of(*peer),
    {
        let user = match &self.requested_user {
            Some(user) => user.as_str(),
            None => "<unknown>",
        };
        let mut out = values::sentence("session authenticated for requested user ", user);
        out.append(" from ");
        let label = peer_label(peer);
        out.append(label.as_str());
        out
    }

    /// A channel for a session has been opened.
    pub fn channel_open_session(&mut self, channel: u32)
        ensures
            final(self)@ == (HandlerView {
                pending: old(self)@.pending.insert(
                    channel,
                    PendingView { pty: None, env: Map::empty() },
                ),
                ..old(self)@
            }),
    {
        broadcast use vstd::std_specs::hash::group_hash_axioms;
        let fresh = PendingChannel { pty: None, env: EnvTable::new() };
        let ghost v = fresh@;
        self.pending_channels.insert(channel, fresh);
        assert(self@.pending =~= old(self)@.pending.insert(channel, v));
    }

    fn take_channel(&mut self, channel: u32) -> (r: Result<PendingChannel, HandlerError>)
        ensures
            match r {
                Ok(found) => old(self)@.pending.contains_key(channel) && found@
                    == old(self)@.pending[channel] && final(self)@ == (HandlerView {
                    pending: old(self)@.pending.remove(channel),
                    ..old(self)@
                }),
                Err(e) => !old(self)@.pending.contains_key(channel) && e
                    == (HandlerError::UnknownChannel { channel }) && final(self)@ == old(self)@,
            },
    {
        broadcast use vstd::std_specs::hash::group_hash_axioms;
        match self.pending_channels.remove(&channel) {
            Some(found) => {
                assert(self@.pending =~= old(self)@.pending.remove(channel));
                Ok(found)
            },
            None => {
                assert(self@.pending =~= old(self)@.pending);
                Err(HandlerError::UnknownChannel { channel })
            },
        }
    }

    fn put_channel(&mut self, channel: u32, value: PendingChannel)
        ensures
            final(self)@ == (HandlerView {
                pending: old(self)@.pending.insert(channel, value@),
                ..old(self)@
            }),
    {
        broadcast use vstd::std_specs::hash::group_hash_axioms;
        let ghost v = value@;
        self.pending_channels.insert(channel, value);
        assert(self@.pending =~= old(self)@.pending.insert(channel, v));
    }

    /// A client sets a variable; tells whether it may.
    pub fn env_request(&mut self, channel: u32, name: &str, value: &str) -> (r: Result<
        bool,
        HandlerError,
    >)
        ensures
            !env_allowed(name@) ==> r == Ok::<bool, HandlerError>(false) && final(self)@
                == old(self)@,
            env_allowed(name@) && !old(self)@.pending.contains_key(channel) ==> r == Err::<
                bool,
                HandlerError,
            >(HandlerError::UnknownChannel { channel }) && final(self)@ == old(self)@,
            env_allowed(name@) && old(self)@.pending.contains_key(channel) ==> r == Ok::<
                bool,
                HandlerError,
            >(true) && final(self)@ == (HandlerView {
                pending: old(self)@.pending.insert(
                    channel,
                    PendingView {
                        env: old(self)@.pending[channel].env.insert(name@, value@),
                        ..old(self)@.pending[channel]
                    },
                ),
                ..old(self)@
            }),
    {
        if !is_env_allowed(name) {
            return Ok(false);
        }
        match self.take_channel(channel) {
            Err(e) => Err(e),
            Ok(mut found) => {
                found.env.set(name, value);
                self.put_channel(channel, found);
                assert(self@.pending =~= old(self)@.pending.insert(
                    channel,
                    PendingView {
                        env: old(self)@.pending[channel].env.insert(name@, value@),
                        ..old(self)@.pending[channel]
                    },
                ));
                Ok(true)
            },
        }
    }

    /// A client asks for a terminal; tells whether it gets one.
    pub fn pty_request(
        &mut self,
        config: &AppConfig,
        channel: u32,
        term: &str,
        col_width: u32,
        row_height: u32,
        pix_width: u32,
        pix_height: u32,
    ) -> (r: Result<bool, HandlerError>)
        ensures
            !config.permit_tty ==> r == Ok::<bool, HandlerError>(false) && final(self)@
                == old(self)@,
            config.permit_tty && !old(self)@.pending.contains_key(channel) ==> r == Err::<
                bool,
                HandlerError,
            >(HandlerError::UnknownChannel { channel }) && final(self)@ == old(self)@,
            config.permit_tty && old(self)@.pending.contains_key(channel) ==> r == Ok::<
                bool,
                HandlerError,
            >(true) && final(self)@ == (HandlerView {
                pending: old(self)@.pending.insert(
                    channel,
                    PendingView {
                        pty: Some(
                            (term@, process::size_of(col_width, row_height, pix_width, pix_height)),
                        ),
                        ..old(self)@.pending[channel]
                    },
                ),
                ..old(self)@
            }),
    {
        if !config.permit_tty {
            return Ok(false);
        }
        match self.take_channel(channel) {
            Err(e) => Err(e),
            Ok(mut found) => {
                let size = pty_size(col_width, row_height, pix_width, pix_height);
                found.pty = Some(SerializablePtyRequest { term: String::from_str(term), size });
                self.put_channel(channel, found);
                assert(self@.pending =~= old(self)@.pending.insert(
                    channel,
                    PendingView {
                        pty: Some(
                            (term@, process::size_of(col_width, row_height, pix_width, pix_height)),
                        ),
                        ..old(self)@.pending[channel]
                    },
                ));
                Ok(true)
            },
        }
    }

    /// A client asks for a shell; what comes back is to be started.
    pub fn shell_request(&mut self, state: &AppState, channel: u32) -> (r: Result<
        ProcessRequest,
        HandlerError,
    >)
        ensures
            match r {
                Ok(request) => old(self)@.pending.contains_key(channel) && asks_for(
                    request,
                    old(self)@.pending[channel],
                    state@.home,
                    state@.user,
                    state@.config.shell,
                    None,
                ) && final(self)@ == (HandlerView {
                    pending: old(self)@.pending.remove(channel),
                    ..old(self)@
                }),
                Err(e) => !old(self)@.pending.contains_key(channel) && e
                    == (HandlerError::UnknownChannel { channel }) && final(self)@ == old(self)@,
            },
    {
        match self.take_channel(channel) {
            Err(e) => Err(e),
            Ok(found) => Ok(process_request(state, found, None)),
        }
    }

    /// A client asks for a command, given as text, to be run; what comes back is
    /// to be started, unless that is not permitted.
    pub fn command_request(&mut self, state: &AppState, channel: u32, command: String) -> (r: Result<
        Option<ProcessRequest>,
        HandlerError,
    >)
        ensures
            runs_command(old(self)@, final(self)@, state@, channel, command@, r),
    {
        if !state.config.permit_exec {
            return Ok(None);
        }
        match self.take_channel(channel) {
            Err(e) => Err(e),
            Ok(found) => Ok(Some(process_request(state, found, Some(command)))),
        }
    }

    /// A client asks for a command to be run; what comes back is to be started,
    /// unless that is not permitted.
    pub fn exec_request(&mut self, state: &AppState, channel: u32, data: &Vec<u8>) -> (r: Result<
        Option<ProcessRequest>,
        HandlerError,
    >)
        ensures
            runs_command(old(self)@, final(self)@, state@, channel, text::lossy_text(data@), r),
            vstd::utf8::valid_utf8(data@) ==> runs_command(
                old(self)@,
                final(self)@,
                state@,
                channel,
                vstd::utf8::decode_utf8(data@),
                r,
            ),
    {
        self.command_request(state, channel, text::decode_lossy(data))
    }

    /// A client asks for a subsystem; tells whether it gets it. Only file access
    /// is there to be had.
    pub fn subsystem_request(&mut self, config: &AppConfig, channel: u32, name: &str) -> (r: Result<
        bool,
        HandlerError,
    >)
        ensures
            ({
                let offered = name@ == "sftp"@ && config.sftp_enabled;
                &&& !offered ==> r == Ok::<bool, HandlerError>(false) && final(self)@ == old(self)@
                &&& offered && !old(self)@.pending.contains_key(channel) ==> r == Err::<
                    bool,
                    HandlerError,
                >(HandlerError::UnknownChannel { channel }) && final(self)@ == old(self)@
                &&& offered && old(self)@.pending.contains_key(channel) ==> r == Ok::<
                    bool,
                    HandlerError,
                >(true) && final(self)@ == (HandlerView {
                    pending: old(self)@.pending.remove(channel),
                    ..old(self)@
                })
            }),
    {
        if !text::same_str(name, "sftp") || !config.sftp_enabled {
            return Ok(false);
        }
        match self.take_channel(channel) {
            Err(e) => Err(e),
            Ok(_) => Ok(true),
        }
    }

    /// A channel has been closed.
    pub fn channel_close(&mut self, channel: u32)
        ensures
            final(self)@ == (HandlerView {
                pending: old(self)@.pending.remove(channel),
                ..old(self)@
            }),
    {
        broadcast use vstd::std_specs::hash::group_hash_axioms;
        self.pending_channels.remove(&channel);
        assert(self@.pending =~= old(self)@.pending.remove(channel));
    }

    fn find_forward(&self, address: &str, port: u32) -> (r: usize)
        ensures
            r == forward_place(self@.forwards, address@, port),
            r <= self@.forwards.len(),
    {
        let ghost list = self@.forwards;
        let mut i: usize = 0;
        while i < self.remote_forwards.len()
            invariant
                i <= self.remote_forwards@.len(),
                list == forward_views(self.remote_forwards@),
                forall|j: int|
                    0 <= j < i ==> !((#[trigger] list[j]).0 == address@ && list[j].1 == port),
            decreases self.remote_forwards.len() - i,
        {
            let entry = &self.remote_forwards[i];
            assert(list[i as int] == (entry.address@, entry.port, entry.task));
            if entry.port == port && text::same_str(entry.address.as_str(), address) {
                proof {
                    lemma_forward_place(list, address@, port);
                }
                return i;
            }
            i = i + 1;
        }
        proof {
            lemma_forward_place(list, address@, port);
        }
        i
    }

    /// A port is being listened on for an address that a client asked for.
    /// Unless it is a duplicate, the address that connections are announced
    /// under comes back.
    pub fn forward_bound(
        &mut self,
        address: &str,
        bind_host: &str,
        bound_port: u16,
        task: u64,
    ) -> (r: Option<String>)
        ensures
            ({
                let place = forward_place(old(self)@.forwards, address@, bound_port as u32);
                if place < old(self)@.forwards.len() {
                    r is None && final(self)@ == old(self)@
                } else {
                    &&& r is Some
                    &&& r->0@ == (if address@.len() == 0 {
                        bind_host@
                    } else {
                        address@
                    })
                    &&& final(self)@ == (HandlerView {
                        forwards: old(self)@.forwards.push((address@, bound_port as u32, task)),
                        ..old(self)@
                    })
                }
            }),
    {
        let port: u32 = bound_port as u32;
        if self.find_forward(address, port) < self.remote_forwards.len() {
            return None;
        }
        let connected = if text::chars_of(address).len() == 0 {
            String::from_str(bind_host)
        } else {
            String::from_str(address)
        };
        self.remote_forwards.push(ForwardEntry { address: String::from_str(address), port, task });
        assert(self@.forwards =~= old(self)@.forwards.push((address@, port, task)));
        Some(connected)
    }

    /// A client no longer wants a port to be listened on; the number of the
    /// listening comes back, if there is any.
    pub fn cancel_tcpip_forward(&mut self, address: &str, port: u32) -> (r: Option<u64>)
        ensures
            ({
                let place = forward_place(old(self)@.forwards, address@, port) as int;
                if place < old(self)@.forwards.len() {
                    r == Some(old(self)@.forwards[place].2) && final(self)@ == (HandlerView {
                        forwards: old(self)@.forwards.remove(place),
                        ..old(self)@
                    })
                } else {
                    r is None && final(self)@ == old(self)@
                }
            }),
    {
        let i = self.find_forward(address, port);
        if i >= self.remote_forwards.len() {
            return None;
        }
        let entry = self.remote_forwards.remove(i);
        assert(self@.forwards =~= old(self)@.forwards.remove(i as int));
        Some(entry.task)
    }

    /// The listenings that end with the connection.
    pub fn open_forwards(&self) -> (r: Vec<u64>)
        ensures
            r@.len() == self@.forwards.len(),
            forall|i: int| 0 <= i < r@.len() ==> #[trigger] r@[i] == self@.forwards[i].2,
    {
        let mut out: Vec<u64> = Vec::new();
        let mut i: usize = 0;
        while i < self.remote_forwards.len()
            invariant
                i <= self.remote_forwards@.len(),
                out@.len() == i,
                forall|j: int| 0 <= j < i ==> #[trigger] out@[j] == self.remote_forwards@[j].task,
            decreases self.remote_forwards.len() - i,
        {
            out.push(self.remote_forwards[i].task);
            i = i + 1;
        }
        out
    }
}

/// Whether no address and port is listened on twice.
pub open spec fn distinct_forwards(list: Seq<(Seq<char>, u32, u64)>) -> bool {
    forall|i: int, j: int|
        0 <= i < j < list.len() ==> !(list[i].0 == list[j].0 && list[i].1 == list[j].1)
}

/// A client never gets the same address and port listened on twice.
pub proof fn law_forwards_stay_distinct(
    list: Seq<(Seq<char>, u32, u64)>,
    address: Seq<char>,
    port: u32,
    task: u64,
    place: int,
)
    requires
        distinct_forwards(list),
    ensures
        forward_place(list, address, port) >= list.len() ==> distinct_forwards(
            list.push((address, port, task)),
        ),
        0 <= place < list.len() ==> distinct_forwards(list.remove(place)),
{
    lemma_forward_place(list, address, port);
}

/// A forwarded port that is taken back is gone, and can be asked for again.
pub proof fn law_cancelled_forward_is_gone(
    list: Seq<(Seq<char>, u32, u64)>,
    address: Seq<char>,
    port: u32,
)
    requires
        distinct_forwards(list),
        forward_place(list, address, port) < list.len(),
    ensures
        ({
            let rest = list.remove(forward_place(list, address, port) as int);
            forward_place(rest, address, port) >= rest.len()
        }),
{
    let place = forward_place(list, address, port) as int;
    let rest = list.remove(place);
    lemma_forward_place(list, address, port);
    lemma_forward_place(rest, address, port);
    let again = forward_place(rest, address, port) as int;
    if again < rest.len() {
        let before = if again < place {
            again
        } else {
            again + 1
        };
        assert(rest[again] == list[before]);
    }
}

/// What is to be done with a request for a connection to somewhere.
#[derive(Clone, Copy, Debug, PartialEq, Eq, Structural)]
pub enum DirectTcpip {
    /// Forwarding is switched off.
    Denied,
    /// There is no such port.
    InvalidPort,
    Connect(u16),
}

/// Decides on a request for a connection to a port.
pub fn channel_open_direct_tcpip(config: &AppConfig, port_to_connect: u32) -> (r: DirectTcpip)
    ensures
        r == (if !config.allow_tcp_forwarding {
            DirectTcpip::Denied
        } else if port_to_connect > u16::MAX {
            DirectTcpip::InvalidPort
        } else {
            DirectTcpip::Connect(port_to_connect as u16)
        }),
{
    if !config.allow_tcp_forwarding {
        DirectTcpip::Denied
    } else if port_to_connect > u16::MAX as u32 {
        DirectTcpip::InvalidPort
    } else {
        DirectTcpip::Connect(port_to_connect as u16)
    }
}

/// What is to be done with a request to listen on a port.
#[derive(Debug)]
pub enum ForwardPlan {
    /// Forwarding is switched off.
    Denied,
    /// Listen on this port of this address.
    Bind { host: String, port: u16 },
}

/// The address that is listened on: the one asked for, or all of them where none
/// is named, if the daemon's settings let others than this machine connect.
pub open spec fn bind_host(address: Seq<char>, gateway_ports: bool) -> Seq<char> {
    if !gateway_ports {
        "127.0.0.1"@
    } else if address.len() == 0 {
        "0.0.0.0"@
    } else {
        address
    }
}

/// Decides on a request to listen on a port.
pub fn tcpip_forward(config: &AppConfig, address: &str, port: u32) -> (r: Result<
    ForwardPlan,
    HandlerError,
>)
    ensures
        match r {
            Ok(ForwardPlan::Denied) => !config.allow_remote_forwarding,
            Ok(ForwardPlan::Bind { host, port: p }) => {
                &&& config.allow_remote_forwarding
                &&& host@ == bind_host(address@, config.gateway_ports)
                &&& p == port
            },
            Err(e) => config.allow_remote_forwarding && port > u16::MAX && e
                == HandlerError::InvalidForwardPort,
        },
{
    if !config.allow_remote_forwarding {
        return Ok(ForwardPlan::Denied);
    }
    if port > u16::MAX as u32 {
        return Err(HandlerError::InvalidForwardPort);
    }
    let host = if !config.gateway_ports {
        String::from_str("127.0.0.1")
    } else if text::chars_of(address).len() == 0 {
        String::from_str("0.0.0.0")
    } else {
        String::from_str(address)
    };
    Ok(ForwardPlan::Bind { host, port: port as u16 })
}

/// Without gateway ports only this machine can connect to a forwarded port,
/// whatever address a client asks for.
pub proof fn law_forwards_stay_local_without_gateway_ports(address: Seq<char>)
    ensures
        bind_host(address, false) == "127.0.0.1"@,
{
}

/// A client may set what concerns its terminal, language and time zone, and
/// nothing that steers programs: not the search path, nor the loader, nor the
/// account's own variables.
pub proof fn law_client_sets_terminal_language_and_time(name: &str, allowed: bool, tail: Seq<char>)
    requires
        call_ensures(is_env_allowed, (name,), allowed),
    ensures
        name@ == "TERM"@ || name@ == "COLORTERM"@ || name@ == "LANG"@ || name@ == "TZ"@ ==> allowed,
        name@ == seq!['L', 'C', '_'] + tail ==> allowed,
        allowed ==> name@ == "TERM"@ || name@ == "COLORTERM"@ || name@ == "LANG"@ || name@ == "TZ"@
            || (name@.len() >= 3 && name@[0] == 'L' && name@[1] == 'C' && name@[2] == '_'),
        name@ == "PATH"@ || name@ == "LD_PRELOAD"@ || name@ == "HOME"@ || name@ == "SHELL"@ || name@
            == "USER"@ || name@ == "LOGNAME"@ || name@ == "LC"@ ==> !allowed,
{
    reveal_strlit("LC_");
    reveal_strlit("TERM");
    reveal_strlit("COLORTERM");
    reveal_strlit("LANG");
    reveal_strlit("TZ");
    reveal_strlit("PATH");
    reveal_strlit("LD_PRELOAD");
    reveal_strlit("HOME");
    reveal_strlit("SHELL");
    reveal_strlit("USER");
    reveal_strlit("LOGNAME");
    reveal_strlit("LC");
    let n = name@;
    if n == seq!['L', 'C', '_'] + tail {
        assert(n.take(3) =~= "LC_"@);
    }
    if text::has_prefix(n, "LC_"@) {
        assert(n.take(3)[0] == n[0] && n.take(3)[1] == n[1] && n.take(3)[2] == n[2]);
    }
    assert("PATH"@[0] == 'P');
    assert("LD_PRELOAD"@[1] == 'D');
    assert("HOME"@[0] == 'H');
    assert("SHELL"@[0] == 'S');
    assert("USER"@[0] == 'U');
    assert("LOGNAME"@[1] == 'O');
    assert("TERM"@[0] == 'T' && "TERM"@.len() == 4);
    assert("COLORTERM"@[0] == 'C');
    assert("LANG"@[1] == 'A');
    assert("TZ"@[1] == 'Z');
}

/// The environment of a session's process holds what the client has set and may
/// set, with the client's value, and for the rest the account's own: the home
/// directory, the user's name twice and the shell, and the kind of the terminal
/// where there is one. Nothing else is in it.
pub proof fn law_environment_is_the_accounts_and_the_clients(
    home: Seq<char>,
    user: Seq<char>,
    shell: Seq<char>,
    requested: Map<Seq<char>, Seq<char>>,
    term: Option<Seq<char>>,
    name: Seq<char>,
)
    ensures
        ({
            let env = child_env(home, user, shell, requested, term);
            &&& requested.contains_key(name) && env_allowed(name) ==> env.contains_key(name)
                && env[name] == requested[name]
            &&& env.contains_key("HOME"@) && env["HOME"@] == native_paths::shown(home)
            &&& env.contains_key("USER"@) && env["USER"@] == user
            &&& env.contains_key("LOGNAME"@) && env["LOGNAME"@] == user
            &&& env.contains_key("SHELL"@) && env["SHELL"@] == native_paths::shown(shell)
            &&& !requested.contains_key("TERM"@) ==> env.contains_key("TERM"@) == (term is Some)
            &&& !requested.contains_key("TERM"@) && term is Some ==> env["TERM"@] == term->0
            &&& env.contains_key(name) ==> (requested.contains_key(name) && env_allowed(name))
                || name == "HOME"@ || name == "USER"@ || name == "LOGNAME"@ || name == "SHELL"@
                || (name == "TERM"@ && term is Some)
        }),
{
    reveal_strlit("LC_");
    reveal_strlit("TERM");
    reveal_strlit("COLORTERM");
    reveal_strlit("LANG");
    reveal_strlit("TZ");
    reveal_strlit("HOME");
    reveal_strlit("SHELL");
    reveal_strlit("USER");
    reveal_strlit("LOGNAME");
    assert("HOME"@[0] == 'H' && "HOME"@.len() == 4);
    assert("SHELL"@[0] == 'S' && "SHELL"@.len() == 5);
    assert("USER"@[0] == 'U' && "USER"@.len() == 4);
    assert("LOGNAME"@[0] == 'L' && "LOGNAME"@[1] == 'O' && "LOGNAME"@.len() == 7);
    assert("TERM"@[0] == 'T' && "TERM"@.len() == 4);
    assert("COLORTERM"@[0] == 'C');
    assert("LANG"@[1] == 'A' && "LANG"@.len() == 4);
    assert("TZ"@.len() == 2);
    lemma_own_names();
}

proof fn lemma_own_names()
    ensures
        !env_allowed("HOME"@),
        !env_allowed("USER"@),
        !env_allowed("LOGNAME"@),
        !env_allowed("SHELL"@),
{
    reveal_strlit("LC_");
    reveal_strlit("TERM");
    reveal_strlit("COLORTERM");
    reveal_strlit("LANG");
    reveal_strlit("TZ");
    reveal_strlit("HOME");
    reveal_strlit("SHELL");
    reveal_strlit("USER");
    reveal_strlit("LOGNAME");
    assert("HOME"@[0] == 'H' && "HOME"@.take(3)[0] == 'H');
    assert("SHELL"@[0] == 'S' && "SHELL"@.take(3)[0] == 'S');
    assert("USER"@[0] == 'U' && "USER"@.take(3)[0] == 'U');
    assert("LOGNAME"@[1] == 'O' && "LOGNAME"@.take(3)[1] == 'O' && "LOGNAME"@.len() == 7);
    assert("TERM"@[0] == 'T');
    assert("COLORTERM"@[0] == 'C');
    assert("LANG"@.len() == 4);
    assert("LANG"@[0] == 'L');
    assert("TZ"@.len() == 2);
    assert("LC_"@[0] == 'L' && "LC_"@[1] == 'C');
}

/// A variable that a client sets is kept for its channel, if the client may set
/// it and the channel is there; no other channel and no other variable changes.
pub proof fn law_variables_are_kept_for_their_channel(
    handler: &mut ClientHandler,
    channel: u32,
    name: &str,
    value: &str,
    granted: Result<bool, HandlerError>,
    other: u32,
    other_name: Seq<char>,
)
    requires
        call_ensures(ClientHandler::env_request, (handler, channel, name, value), granted),
    ensures
        ({
            let before = old(handler)@;
            let after = final(handler)@;
            let open = before.pending.contains_key(channel);
            &&& granted is Ok && granted->Ok_0 <==> env_allowed(name@) && open
            &&& granted is Err <==> env_allowed(name@) && !open
            &&& granted is Ok && granted->Ok_0 ==> after.pending.contains_key(channel)
                && after.pending[channel].env.contains_key(name@)
                && after.pending[channel].env[name@] == value@ && after.pending[channel].pty
                == before.pending[channel].pty && (other_name != name@ ==> (
            after.pending[channel].env.contains_key(other_name)
                <==> before.pending[channel].env.contains_key(other_name)) && (
            before.pending[channel].env.contains_key(other_name)
                ==> after.pending[channel].env[other_name]
                == before.pending[channel].env[other_name]))
            &&& !(granted is Ok && granted->Ok_0) ==> after == before
            &&& other != channel ==> (after.pending.contains_key(other)
                <==> before.pending.contains_key(other)) && (before.pending.contains_key(other)
                ==> after.pending[other] == before.pending[other])
            &&& after.forwards == before.forwards && after.user == before.user
        }),
{
}

/// A terminal is given where terminals are permitted, of the kind and size that
/// the client asks for and on the channel that it names; its variables stay.
pub proof fn law_terminal_is_given_where_permitted(
    handler: &mut ClientHandler,
    config: &AppConfig,
    channel: u32,
    term: &str,
    col_width: u32,
    row_height: u32,
    pix_width: u32,
    pix_height: u32,
    granted: Result<bool, HandlerError>,
    other: u32,
)
    requires
        call_ensures(
            ClientHandler::pty_request,
            (handler, config, channel, term, col_width, row_height, pix_width, pix_height),
            granted,
        ),
    ensures
        ({
            let before = old(handler)@;
            let after = final(handler)@;
            let open = before.pending.contains_key(channel);
            &&& granted is Ok && granted->Ok_0 <==> config@.permit_tty && open
            &&& granted is Err <==> config@.permit_tty && !open
            &&& granted is Ok && granted->Ok_0 ==> after.pending.contains_key(channel)
                && after.pending[channel].env == before.pending[channel].env && (
            after.pending[channel].pty matches Some((kind, size)) && kind == term@ && (1
                <= row_height <= 65535 ==> size.rows == row_height) && (1 <= col_width <= 65535
                ==> size.cols == col_width) && (1 <= pix_width <= 65535 ==> size.pixel_width
                == pix_width) && (1 <= pix_height <= 65535 ==> size.pixel_height == pix_height))
            &&& !(granted is Ok && granted->Ok_0) ==> after == before
            &&& other != channel ==> (after.pending.contains_key(other)
                <==> before.pending.contains_key(other)) && (before.pending.contains_key(other)
                ==> after.pending[other] == before.pending[other])
            &&& after.forwards == before.forwards && after.user == before.user
        }),
{
}

/// A shell is started once on an open channel, with the terminal that was asked
/// for, and with the variables that the account and the client call for; it has
/// no command.
pub proof fn law_shell_is_started_once(
    handler: &mut ClientHandler,
    state: &AppState,
    channel: u32,
    r: Result<ProcessRequest, HandlerError>,
    other: u32,
)
    requires
        call_ensures(ClientHandler::shell_request, (handler, state, channel), r),
    ensures
        ({
            let before = old(handler)@;
            let after = final(handler)@;
            &&& r is Ok <==> before.pending.contains_key(channel)
            &&& !after.pending.contains_key(channel)
            &&& other != channel ==> (after.pending.contains_key(other)
                <==> before.pending.contains_key(other)) && (before.pending.contains_key(other)
                ==> after.pending[other] == before.pending[other])
            &&& after.forwards == before.forwards
            &&& r matches Ok(request) ==> {
                &&& request.command is None
                &&& before.pending[channel].pty is Some <==> request.pty is Some
                &&& request.pty matches Some(pty) ==> before.pending[channel].pty == Some(
                    (pty.term@, pty.size),
                )
                &&& request.env@ == child_env(
                    state@.home,
                    state@.user,
                    state@.config.shell,
                    before.pending[channel].env,
                    if request.pty is Some {
                        Some(request.pty->0.term@)
                    } else {
                        None
                    },
                )
            }
        }),
{
}

/// A command is run where commands are permitted, once on an open channel: the
/// command that the client sent, with the terminal and the variables that were
/// asked for.
pub proof fn law_command_is_run_where_permitted(
    handler: &mut ClientHandler,
    state: &AppState,
    channel: u32,
    command: String,
    r: Result<Option<ProcessRequest>, HandlerError>,
    other: u32,
)
    requires
        call_ensures(ClientHandler::command_request, (handler, state, channel, command), r),
    ensures
        ({
            let before = old(handler)@;
            let after = final(handler)@;
            let open = before.pending.contains_key(channel);
            &&& r is Ok && r->Ok_0 is Some <==> state@.config.permit_exec && open
            &&& r is Ok && r->Ok_0 is None <==> !state@.config.permit_exec
            &&& r is Err <==> state@.config.permit_exec && !open
            &&& state@.config.permit_exec ==> !after.pending.contains_key(channel)
            &&& !state@.config.permit_exec ==> after == before
            &&& other != channel ==> (after.pending.contains_key(other)
                <==> before.pending.contains_key(other))
            &&& after.forwards == before.forwards
            &&& r matches Ok(Some(request)) ==> {
                &&& request.command is Some && request.command->0@ == command@
                &&& before.pending[channel].pty is Some <==> request.pty is Some
                &&& request.pty matches Some(pty) ==> before.pending[channel].pty == Some(
                    (pty.term@, pty.size),
                )
                &&& request.env@ == child_env(
                    state@.home,
                    state@.user,
                    state@.config.shell,
                    before.pending[channel].env,
                    if request.pty is Some {
                        Some(request.pty->0.term@)
                    } else {
                        None
                    },
                )
            }
        }),
{
}

/// The bytes of a command that are UTF-8 are run as the text that they encode.
pub proof fn law_command_bytes_are_text(
    handler: &mut ClientHandler,
    state: &AppState,
    channel: u32,
    data: &Vec<u8>,
    command: Seq<char>,
    r: Result<Option<ProcessRequest>, HandlerError>,
)
    requires
        call_ensures(ClientHandler::exec_request, (handler, state, channel, data), r),
        data@ == vstd::utf8::encode_utf8(command),
        state@.config.permit_exec,
        old(handler)@.pending.contains_key(channel),
    ensures
        r is Ok,
        r->Ok_0 is Some,
        r->Ok_0->0.command is Some,
        r->Ok_0->0.command->0@ == command,
{
    vstd::utf8::encode_utf8_valid_utf8(command);
    vstd::utf8::encode_utf8_decode_utf8(command);
}

/// Of the subsystems only file access is there, where it is switched on and the
/// channel is open; it takes the channel.
pub proof fn law_only_file_access_is_a_subsystem(
    handler: &mut ClientHandler,
    config: &AppConfig,
    channel: u32,
    name: &str,
    granted: Result<bool, HandlerError>,
)
    requires
        call_ensures(ClientHandler::subsystem_request, (handler, config, channel, name), granted),
    ensures
        granted is Ok && granted->Ok_0 <==> name@ == seq!['s', 'f', 't', 'p']
            && config@.sftp_enabled && old(handler)@.pending.contains_key(channel),
        granted is Err ==> !old(handler)@.pending.contains_key(channel),
        granted is Ok && granted->Ok_0 ==> !final(handler)@.pending.contains_key(channel),
        granted is Ok && !granted->Ok_0 ==> final(handler)@ == old(handler)@,
        final(handler)@.forwards == old(handler)@.forwards,
{
    reveal_strlit("sftp");
    assert("sftp"@ =~= seq!['s', 'f', 't', 'p']);
}

/// A channel that has been opened is there, with no terminal and no variables; a
/// channel that has been closed is not. The other channels stay as they are.
pub proof fn law_channels_come_and_go(
    opened: &mut ClientHandler,
    closed: &mut ClientHandler,
    channel: u32,
    other: u32,
)
    requires
        call_ensures(ClientHandler::channel_open_session, (opened, channel), ()),
        call_ensures(ClientHandler::channel_close, (closed, channel), ()),
    ensures
        final(opened)@.pending.contains_key(channel),
        final(opened)@.pending[channel].pty is None,
        forall|name: Seq<char>| !#[trigger] final(opened)@.pending[channel].env.contains_key(name),
        !final(closed)@.pending.contains_key(channel),
        other != channel ==> (final(opened)@.pending.contains_key(other)
            <==> old(opened)@.pending.contains_key(other)),
        other != channel ==> (final(closed)@.pending.contains_key(other)
            <==> old(closed)@.pending.contains_key(other)),
        final(opened)@.forwards == old(opened)@.forwards,
        final(closed)@.forwards == old(closed)@.forwards,
{
}

/// A connection is opened for a client exactly where forwarding is switched on,
/// to the very port that it names, if there is such a port.
pub proof fn law_connections_go_to_the_port_asked_for(
    config: &AppConfig,
    port: u32,
    r: DirectTcpip,
)
    requires
        call_ensures(channel_open_direct_tcpip, (config, port), r),
    ensures
        r is Denied <==> !config@.allow_tcp_forwarding,
        r is InvalidPort <==> config@.allow_tcp_forwarding && port > 65535,
        config@.allow_tcp_forwarding && port <= 65535 ==> r is Connect && r->Connect_0 == port,
{
}

/// A port is listened on for a client exactly where remote forwarding is
/// switched on, the very port that it names: with gateway ports on the address
/// that it names, or on all where it names none, and without them on this
/// machine alone.
pub proof fn law_listens_where_asked(
    config: &AppConfig,
    address: &str,
    port: u32,
    r: Result<ForwardPlan, HandlerError>,
)
    requires
        call_ensures(tcpip_forward, (config, address, port), r),
    ensures
        r is Ok && r->Ok_0 is Denied <==> !config@.allow_remote_forwarding,
        r is Err <==> config@.allow_remote_forwarding && port > 65535,
        r matches Ok(ForwardPlan::Bind { host, port: bound }) ==> {
            &&& bound == port
            &&& config@.gateway_ports && address@.len() > 0 ==> host@ == address@
            &&& config@.gateway_ports && address@.len() == 0 ==> host@ == "0.0.0.0"@
            &&& !config@.gateway_ports ==> host@ == "127.0.0.1"@
        },
{
}

/// A port that is listened on is kept under the address and the port that were
/// asked for, once, and is announced under the address that was asked for, or
/// the one listened on where none was; taking it back gives the number of its
/// listening.
pub proof fn law_forward_is_kept_under_its_address(
    handler: &mut ClientHandler,
    address: &str,
    bind_host: &str,
    port: u16,
    task: u64,
    announced: Option<String>,
)
    requires
        call_ensures(
            ClientHandler::forward_bound,
            (handler, address, bind_host, port, task),
            announced,
        ),
    ensures
        ({
            let before = old(handler)@.forwards;
            let after = final(handler)@.forwards;
            &&& announced is None <==> exists|i: int|
                0 <= i < before.len() && (#[trigger] before[i]).0 == address@ && before[i].1
                    == port
            &&& announced is None ==> after == before
            &&& announced is Some ==> after.len() == before.len() + 1 && after.last() == (
                address@,
                port as u32,
                task,
            ) && after.drop_last() == before
            &&& announced is Some && address@.len() > 0 ==> announced->0@ == address@
            &&& announced is Some && address@.len() == 0 ==> announced->0@ == bind_host@
            &&& final(handler)@.pending == old(handler)@.pending
        }),
{
    let before = old(handler)@.forwards;
    lemma_forward_place(before, address@, port as u32);
    if announced is Some {
        assert(final(handler)@.forwards.drop_last() =~= before);
    } else {
        let i = forward_place(before, address@, port as u32) as int;
        assert(before[i].0 == address@ && before[i].1 == port);
    }
}

/// A port is taken back exactly if it is listened on for that address, and the
/// number that comes back is that of its own listening; the others stay.
pub proof fn law_forward_is_taken_back(
    handler: &mut ClientHandler,
    address: &str,
    port: u32,
    task: Option<u64>,
)
    requires
        call_ensures(ClientHandler::cancel_tcpip_forward, (handler, address, port), task),
        distinct_forwards(old(handler)@.forwards),
    ensures
        ({
            let before = old(handler)@.forwards;
            let after = final(handler)@.forwards;
            &&& task is Some <==> exists|i: int|
                0 <= i < before.len() && (#[trigger] before[i]).0 == address@ && before[i].1
                    == port
            &&& forall|i: int|
                0 <= i < before.len() && (#[trigger] before[i]).0 == address@ && before[i].1
                    == port ==> task == Some(before[i].2)
            &&& task is None ==> after == before
            &&& task is Some ==> after.len() == before.len() - 1
            &&& forall|i: int|
                0 <= i < before.len() && !((#[trigger] before[i]).0 == address@ && before[i].1
                    == port) ==> after.contains(before[i])
            &&& forall|i: int|
                0 <= i < after.len() ==> !((#[trigger] after[i]).0 == address@ && after[i].1
                    == port)
            &&& final(handler)@.pending == old(handler)@.pending
        }),
{
    let before = old(handler)@.forwards;
    let after = final(handler)@.forwards;
    let place = forward_place(before, address@, port) as int;
    lemma_forward_place(before, address@, port);
    if place < before.len() {
        assert(before[place].0 == address@ && before[place].1 == port);
        assert forall|i: int|
            0 <= i < before.len() && !((#[trigger] before[i]).0 == address@ && before[i].1
                == port) implies after.contains(before[i]) by {
            if i < place {
                assert(after[i] == before[i]);
            } else {
                assert(after[i - 1] == before[i]);
            }
        }
        assert forall|i: int| 0 <= i < after.len() implies !((#[trigger] after[i]).0 == address@
            && after[i].1 == port) by {
            let j = if i < place {
                i
            } else {
                i + 1
            };
            assert(after[i] == before[j]);
        }
    } else {
        assert forall|i: int|
            0 <= i < before.len() && !((#[trigger] before[i]).0 == address@ && before[i].1
                == port) implies after.contains(before[i]) by {
            assert(after[i] == before[i]);
        }
    }
}

/// A client that has shown a key is remembered by the user it asked for, and
/// the answer is the daemon's own.
pub proof fn law_requested_user_is_remembered(
    handler: &mut ClientHandler,
    state: &mut AppState,
    peer: &Option<Peer>,
    user: &str,
    key: &OfferedKey,
    now: Instant,
    answer: Result<AuthAnswer, KeysError>,
)
    requires
        call_ensures(
            ClientHandler::authorize_key,
            (handler, state, peer, user, key, now),
            answer,
        ),
    ensures
        final(handler)@.user == Some(user@),
        final(handler)@.pending == old(handler)@.pending,
        final(handler)@.forwards == old(handler)@.forwards,
        answer is Ok && answer->Ok_0.accepted ==> user@ == old(state)@.user && (
        key.algorithm is Ed25519 || key.algorithm is SkEd25519) && key.encoded is Some
            && old(state)@.keys.cache.keys.contains(key.encoded->0@),
{
}

/// A login is noted with the user that was asked for and where it came from; the
/// forwards that are open are told by their tokens, in the order in which they
/// were set up.
pub proof fn law_sessions_are_told_of(
    fresh: ClientHandler,
    handler: &ClientHandler,
    peer: &Option<Peer>,
    line: String,
    tokens: Vec<u64>,
    i: int,
)
    requires
        call_ensures(ClientHandler::new, (), fresh),
        call_ensures(ClientHandler::auth_succeeded, (handler, peer), line),
        call_ensures(ClientHandler::open_forwards, (handler,), tokens),
    ensures
        fresh@.user is None && fresh@.forwards.len() == 0,
        forall|c: u32| !#[trigger] fresh@.pending.contains_key(c),
        line@ == "session authenticated for requested user "@ + (if handler@.user is Some {
            handler@.user->0
        } else {
            "<unknown>"@
        }) + " from "@ + (if peer is Some {
            peer->0.label@
        } else {
            "<unknown peer>"@
        }),
        tokens@.len() == handler@.forwards.len(),
        0 <= i < tokens@.len() ==> tokens@[i] == handler@.forwards[i].2,
{
}

/// What is wrong with a request of a session is told in its own words.
pub proof fn law_handler_errors_are_told_in_words(e: HandlerError, words: String)
    requires
        call_ensures(HandlerError::message, (e,), words),
    ensures
        words@ == (match e {
            HandlerError::UnknownChannel { channel } => "unknown channel ChannelId("@
                + text::decimal(channel as nat) + ")"@,
            HandlerError::InvalidForwardPort => "invalid tcpip-forward port"@,
        }),
{
}

} // verus!
