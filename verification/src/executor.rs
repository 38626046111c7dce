//! The process that owns the sessions of logged-in users, and the protocol
//! between it and the process that listens to the network.
use std::collections::{HashMap, HashSet};

use vstd::prelude::*;
use vstd::string::*;

use crate::config::ExecMode;
pub use crate::process::{
    map_signal, ExecutorSignal, ProcessInput, ProcessOutput, ProcessRequest,
    SerializablePtyRequest, SerializablePtySize,
};
use crate::process;
use crate::process::LaunchPlan;
use crate::text;
use crate::values;

verus! {

/// The number under which the executor finds its control channel.
pub const CONTROL_FD: i32 = 3;

/// The largest message on the control channel.
pub const MAX_CONTROL_MESSAGE_SIZE: usize = 65_536;

/// The largest message of a session.
pub const MAX_SESSION_MESSAGE_SIZE: usize = 1_048_576;

/// The arguments that make the program run as executor.
pub fn executor_args() -> (r: Vec<String>)
    ensures
        process::strings(r@) == seq![
            "--internal-executor"@,
            "--control-fd"@,
            text::decimal(CONTROL_FD as nat),
        ],
{
    let mut args: Vec<String> = Vec::new();
    args.push(String::from_str("--internal-executor"));
    args.push(String::from_str("--control-fd"));
    args.push(text::decimal_of(CONTROL_FD as u64));
    assert(process::strings(args@) =~= seq![
        "--internal-executor"@,
        "--control-fd"@,
        text::decimal(CONTROL_FD as nat),
    ]);
    args
}

/// Why a session's messages cannot be read or written.
#[derive(Clone, Copy, Debug, PartialEq, Eq, Structural)]
pub enum FrameError {
    /// The length in front of a message cannot be read.
    LengthUnreadable,
    /// A message is announced that is longer than allowed.
    TooLong { length: usize },
    /// A message ends early.
    BodyUnreadable,
    /// A message is too long for its length to be written in front of it.
    TooLarge,
}

impl FrameError {
    pub open spec fn text(self) -> Seq<char> {
        match self {
            FrameError::LengthUnreadable => "failed to read session message length"@,
            FrameError::TooLong { length } => "session message length "@ + text::decimal(
                length as nat,
            ) + " exceeds the maximum supported size"@,
            FrameError::BodyUnreadable => "failed to read session message body"@,
            FrameError::TooLarge => "session message too large"@,
        }
    }

    /// The error in words.
    pub fn message(self) -> (r: String)
        ensures
            r@ == self.text(),
    {
        match self {
            FrameError::LengthUnreadable => String::from_str(
                "failed to read session message length",
            ),
            FrameError::TooLong { length } => {
                let number = text::decimal_of(length as u64);
                let mut out = values::sentence("session message length ", number.as_str());
                out.append(" exceeds the maximum supported size");
                out
            },
            FrameError::BodyUnreadable => String::from_str("failed to read session message body"),
            FrameError::TooLarge => String::from_str("session message too large"),
        }
    }
}

/// A number as four bytes, the most significant first.
pub open spec fn header_of(n: nat) -> Seq<u8> {
    seq![
        (n / 0x100_0000) as u8,
        (n / 0x1_0000 % 0x100) as u8,
        (n / 0x100 % 0x100) as u8,
        (n % 0x100) as u8,
    ]
}

/// The number that four bytes stand for.
pub open spec fn header_value(a: u8, b: u8, c: u8, d: u8) -> nat {
    (a * 0x100_0000 + b * 0x1_0000 + c * 0x100 + d) as nat
}

/// A message with its length in front.
pub open spec fn framed(payload: Seq<u8>) -> Seq<u8> {
    header_of(payload.len()) + payload
}

/// Puts its length in front of a message.
pub fn frame_message(payload: &Vec<u8>) -> (r: Result<Vec<u8>, FrameError>)
    ensures
        match r {
            Ok(bytes) => payload@.len() <= u32::MAX && bytes@ == framed(payload@),
            Err(e) => payload@.len() > u32::MAX && e == FrameError::TooLarge,
        },
{
    let n: u64 = payload.len() as u64;
    if n > u32::MAX as u64 {
        return Err(FrameError::TooLarge);
    }
    let mut out: Vec<u8> = Vec::new();
    out.push((n / 0x100_0000) as u8);
    out.push((n / 0x1_0000 % 0x100) as u8);
    out.push((n / 0x100 % 0x100) as u8);
    out.push((n % 0x100) as u8);
    assert(out@ =~= header_of(payload@.len()));
    let mut i: usize = 0;
    assert(header_of(payload@.len()) + payload@.take(0) =~= out@);
    while i < payload.len()
        invariant
            i <= payload@.len(),
            out@ == header_of(payload@.len()) + payload@.take(i as int),
        decreases payload.len() - i,
    {
        out.push(payload[i]);
        assert(out@ =~= header_of(payload@.len()) + payload@.take(i + 1));
        i = i + 1;
    }
    assert(payload@.take(payload@.len() as int) =~= payload@);
    Ok(out)
}

/// What came of reading the four bytes in front of a message.
#[derive(Clone, Copy, Debug, PartialEq, Eq, Structural)]
pub enum HeaderRead {
    Bytes(u8, u8, u8, u8),
    /// The stream has ended.
    Eof,
    Failed,
}

/// The length of the next message, none behind the last one.
pub fn frame_length(header: HeaderRead) -> (r: Result<Option<usize>, FrameError>)
    ensures
        r == (match header {
            HeaderRead::Eof => Ok::<Option<usize>, FrameError>(None),
            HeaderRead::Failed => Err::<Option<usize>, FrameError>(FrameError::LengthUnreadable),
            HeaderRead::Bytes(a, b, c, d) => if header_value(a, b, c, d)
                <= MAX_SESSION_MESSAGE_SIZE {
                Ok::<Option<usize>, FrameError>(Some(header_value(a, b, c, d) as usize))
            } else {
                Err::<Option<usize>, FrameError>(
                    FrameError::TooLong { length: header_value(a, b, c, d) as usize },
                )
            },
        }),
{
    match header {
        HeaderRead::Eof => Ok(None),
        HeaderRead::Failed => Err(FrameError::LengthUnreadable),
        HeaderRead::Bytes(a, b, c, d) => {
            let length: usize = (a as usize) * 0x100_0000 + (b as usize) * 0x1_0000 + (c as usize)
                * 0x100 + (d as usize);
            if length > MAX_SESSION_MESSAGE_SIZE {
                Err(FrameError::TooLong { length })
            } else {
                Ok(Some(length))
            }
        },
    }
}

/// The first message of a stream and what follows it, if a message of an
/// allowed length is there.
pub open spec fn unframed(stream: Seq<u8>) -> Option<(Seq<u8>, Seq<u8>)> {
    if stream.len() < 4 {
        None
    } else {
        let n = header_value(stream[0], stream[1], stream[2], stream[3]) as int;
        if n > MAX_SESSION_MESSAGE_SIZE || stream.len() < 4 + n {
            None
        } else {
            Some((stream.subrange(4, 4 + n), stream.skip(4 + n)))
        }
    }
}

/// What is written is read back: a message of an allowed length comes out of
/// the stream as it went in, and what follows it stays.
pub proof fn law_framed_message_reads_back(payload: Seq<u8>, rest: Seq<u8>)
    requires
        payload.len() <= MAX_SESSION_MESSAGE_SIZE,
    ensures
        unframed(framed(payload) + rest) == Some((payload, rest)),
{
    let n = payload.len();
    let stream = framed(payload) + rest;
    assert(stream[0] == header_of(n)[0]);
    assert(stream[1] == header_of(n)[1]);
    assert(stream[2] == header_of(n)[2]);
    assert(stream[3] == header_of(n)[3]);
    assert(header_value(stream[0], stream[1], stream[2], stream[3]) == n);
    assert(stream.subrange(4, 4 + n as int) =~= payload);
    assert(stream.skip(4 + n as int) =~= rest);
}

/// A message longer than allowed is never taken.
pub proof fn law_long_messages_are_refused(payload: Seq<u8>, rest: Seq<u8>)
    requires
        MAX_SESSION_MESSAGE_SIZE < payload.len() <= u32::MAX,
    ensures
        unframed(framed(payload) + rest) is None,
{
    let n = payload.len();
    let stream = framed(payload) + rest;
    assert(stream[0] == header_of(n)[0]);
    assert(stream[1] == header_of(n)[1]);
    assert(stream[2] == header_of(n)[2]);
    assert(stream[3] == header_of(n)[3]);
    assert(header_value(stream[0], stream[1], stream[2], stream[3]) == n);
}

/// Why a message on the control channel is not taken.
#[derive(Clone, Copy, Debug, PartialEq, Eq, Structural)]
pub enum ControlError {
    Eof,
    TooManyFds,
}

impl ControlError {
    pub open spec fn text(self) -> Seq<char> {
        match self {
            ControlError::Eof => "executor control channel reached EOF"@,
            ControlError::TooManyFds =>
                "executor control message carried more than one attached fd"@,
        }
    }

    /// The error in words.
    pub fn message(self) -> (r: &'static str)
        ensures
            r@ == self.text(),
    {
        match self {
            ControlError::Eof => "executor control channel reached EOF",
            ControlError::TooManyFds =>
                "executor control message carried more than one attached fd",
        }
    }
}

/// A message on the control channel, sorted: the descriptor that came with it,
/// and those that are to be closed.
#[derive(Debug)]
pub struct SortedFds {
    pub attached: Result<Option<i32>, ControlError>,
    pub close: Vec<i32>,
}

/// Sorts the descriptors that came with a message of so many bytes. A message
/// may carry one; more are closed, and so is the first one then.
pub fn sort_fds(bytes: usize, fds: Vec<i32>) -> (r: SortedFds)
    ensures
        r.attached == (if bytes == 0 {
            Err::<Option<i32>, ControlError>(ControlError::Eof)
        } else if fds@.len() > 1 {
            Err::<Option<i32>, ControlError>(ControlError::TooManyFds)
        } else if fds@.len() == 1 {
            Ok::<Option<i32>, ControlError>(Some(fds@[0]))
        } else {
            Ok::<Option<i32>, ControlError>(None)
        }),
        r.close@ == (if r.attached is Ok {
            Seq::empty()
        } else {
            fds@
        }),
{
    if bytes == 0 {
        return SortedFds { attached: Err(ControlError::Eof), close: fds };
    }
    if fds.len() > 1 {
        return SortedFds { attached: Err(ControlError::TooManyFds), close: fds };
    }
    let attached = if fds.len() == 1 {
        Some(fds[0])
    } else {
        None
    };
    let none: Vec<i32> = Vec::new();
    assert(none@ =~= Seq::<i32>::empty());
    SortedFds { attached: Ok(attached), close: none }
}

/// What the executor is told when it starts.
#[derive(Debug)]
pub struct ExecutorHello {
    pub home_dir: String,
    pub shell: String,
    pub exec_mode: ExecMode,
}

/// A request to the executor.
#[derive(Debug)]
pub enum ExecutorRequest {
    Hello(ExecutorHello),
    StartProcess { request_id: u64, request: ProcessRequest },
    StartSftp { request_id: u64 },
    ConnectTcp { request_id: u64, host: String, port: u16 },
    StartRemoteForward { request_id: u64, token: u64, bind_address: String, bind_port: u16 },
    CancelRemoteForward { request_id: u64, token: u64 },
}

/// What an answer carries.
#[derive(Clone, Copy, Debug, PartialEq, Eq, Structural)]
pub enum ResponseDetail {
    Empty,
    BoundPort(u16),
}

/// A message from the executor.
#[derive(Debug)]
pub enum ExecutorResponse {
    HelloAck,
    RequestOk { request_id: u64, detail: ResponseDetail },
    RequestErr { request_id: u64, message: String },
    RemoteForwardIncoming { token: u64, originator_address: String, originator_port: u32 },
}

/// The number of a request, if it has one.
pub open spec fn id_of(request: ExecutorRequest) -> Option<u64> {
    match request {
        ExecutorRequest::Hello(_) => None,
        ExecutorRequest::StartProcess { request_id, .. } => Some(request_id),
        ExecutorRequest::StartSftp { request_id } => Some(request_id),
        ExecutorRequest::ConnectTcp { request_id, .. } => Some(request_id),
        ExecutorRequest::StartRemoteForward { request_id, .. } => Some(request_id),
        ExecutorRequest::CancelRemoteForward { request_id, .. } => Some(request_id),
    }
}

pub fn request_id(request: &ExecutorRequest) -> (r: Option<u64>)
    ensures
        r == id_of(*request),
{
    match request {
        ExecutorRequest::Hello(_) => None,
        ExecutorRequest::StartProcess { request_id, .. } => Some(*request_id),
        ExecutorRequest::StartSftp { request_id } => Some(*request_id),
        ExecutorRequest::ConnectTcp { request_id, .. } => Some(*request_id),
        ExecutorRequest::StartRemoteForward { request_id, .. } => Some(*request_id),
        ExecutorRequest::CancelRemoteForward { request_id, .. } => Some(*request_id),
    }
}

/// What the executor is to do for a request. What comes of it goes into
/// `finish`, under the request's number.
#[derive(Debug)]
pub enum ExecutorAction {
    /// Send this.
    Respond(ExecutorResponse),
    /// Start a process on the stream that came with the request, at a terminal
    /// if it asks for one.
    StartProcess { request_id: u64, pty: Option<SerializablePtyRequest>, plan: LaunchPlan },
    /// Serve files on the stream that came with the request.
    StartSftp { request_id: u64, root: String },
    /// Connect the stream that came with the request.
    Connect { request_id: u64, host: String, port: u16 },
    /// Listen for connections.
    Bind { request_id: u64, token: u64, address: String, port: u16 },
    /// Stop listening.
    StopForward { request_id: u64, token: u64 },
}

/// Why the executor does not do what a request asks for.
#[derive(Clone, Copy, Debug, PartialEq, Eq, Structural)]
pub enum RefusalReason {
    NotStarted,
    NoStream(StreamUse),
    UnknownToken(u64),
}

/// What a stream that has to come with a request is for.
#[derive(Clone, Copy, Debug, PartialEq, Eq, Structural)]
pub enum StreamUse {
    Process,
    Sftp,
    DirectTcpip,
}

impl RefusalReason {
    pub open spec fn text(self) -> Seq<char> {
        match self {
            RefusalReason::NotStarted => "executor received a request before startup completed"@,
            RefusalReason::NoStream(StreamUse::Process) =>
                "missing Unix service stream for process request"@,
            RefusalReason::NoStream(StreamUse::Sftp) =>
                "missing Unix service stream for SFTP request"@,
            RefusalReason::NoStream(StreamUse::DirectTcpip) =>
                "missing Unix service stream for direct-tcpip request"@,
            RefusalReason::UnknownToken(token) => "unknown remote-forward token "@ + text::decimal(
                token as nat,
            ),
        }
    }

    /// The reason in words.
    pub fn message(self) -> (r: String)
        ensures
            r@ == self.text(),
    {
        match self {
            RefusalReason::NotStarted => String::from_str(
                "executor received a request before startup completed",
            ),
            RefusalReason::NoStream(StreamUse::Process) => String::from_str(
                "missing Unix service stream for process request",
            ),
            RefusalReason::NoStream(StreamUse::Sftp) => String::from_str(
                "missing Unix service stream for SFTP request",
            ),
            RefusalReason::NoStream(StreamUse::DirectTcpip) => String::from_str(
                "missing Unix service stream for direct-tcpip request",
            ),
            RefusalReason::UnknownToken(token) => {
                let number = text::decimal_of(token);
                values::sentence("unknown remote-forward token ", number.as_str())
            },
        }
    }
}

/// Whether an action is the refusal of a request.
pub open spec fn refuses(action: ExecutorAction, id: u64, reason: RefusalReason) -> bool {
    action matches ExecutorAction::Respond(ExecutorResponse::RequestErr { request_id, message })
        && request_id == id && message@ == reason.text()
}

/// What is known of how sessions are to be started.
pub struct HelloView {
    pub home_dir: Seq<char>,
    pub shell: Seq<char>,
    pub exec_mode: ExecMode,
}

impl View for ExecutorHello {
    type V = HelloView;

    open spec fn view(&self) -> HelloView {
        HelloView { home_dir: self.home_dir@, shell: self.shell@, exec_mode: self.exec_mode }
    }
}

/// Where the executor stands.
pub struct ExecutorView {
    pub hello: Option<HelloView>,
    /// The tokens of the ports that it listens on.
    pub forwards: Set<u64>,
}

/// The state of the executor.
#[derive(Debug)]
pub struct ExecutorState {
    hello: Option<ExecutorHello>,
    remote_forwards: HashSet<u64>,
}

impl View for ExecutorState {
    type V = ExecutorView;

    closed spec fn view(&self) -> ExecutorView {
        ExecutorView {
            hello: match self.hello {
                Some(hello) => Some(hello@),
                None => None,
            },
            forwards: self.remote_forwards@,
        }
    }
}

/// The plan that a request for a process leads to.
pub open spec fn planned(hello: HelloView, request: ProcessRequest) -> process::LaunchView {
    process::LaunchView {
        program: hello.shell,
        args: process::shell_args(hello.exec_mode.flag(), request.command),
        cwd: hello.home_dir,
        env: request.env@,
    }
}

/// Whether `action` is what the executor is to do for `request`, which came
/// with a stream if `attached`.
pub open spec fn serves(
    before: ExecutorView,
    request: ExecutorRequest,
    attached: bool,
    action: ExecutorAction,
) -> bool {
    match request {
        ExecutorRequest::Hello(_) => action == ExecutorAction::Respond(ExecutorResponse::HelloAck),
        ExecutorRequest::StartProcess { request_id, request } => match before.hello {
            None => refuses(action, request_id, RefusalReason::NotStarted),
            Some(hello) => if !attached {
                refuses(action, request_id, RefusalReason::NoStream(StreamUse::Process))
            } else {
                action matches ExecutorAction::StartProcess { request_id: id, pty, plan } && id
                    == request_id && pty == request.pty && plan@ == planned(hello, request)
            },
        },
        ExecutorRequest::StartSftp { request_id } => match before.hello {
            None => refuses(action, request_id, RefusalReason::NotStarted),
            Some(hello) => if !attached {
                refuses(action, request_id, RefusalReason::NoStream(StreamUse::Sftp))
            } else {
                action matches ExecutorAction::StartSftp { request_id: id, root } && id
                    == request_id && root@ == hello.home_dir
            },
        },
        ExecutorRequest::ConnectTcp { request_id, host, port } => if !attached {
            refuses(action, request_id, RefusalReason::NoStream(StreamUse::DirectTcpip))
        } else {
            action == (ExecutorAction::Connect { request_id, host, port })
        },
        ExecutorRequest::StartRemoteForward { request_id, token, bind_address, bind_port } =>
            action == (ExecutorAction::Bind {
            request_id,
            token,
            address: bind_address,
            port: bind_port,
        }),
        ExecutorRequest::CancelRemoteForward { request_id, token } => if before.forwards.contains(
            token,
        ) {
            action == (ExecutorAction::StopForward { request_id, token })
        } else {
            refuses(action, request_id, RefusalReason::UnknownToken(token))
        },
    }
}

fn refuse(request_id: u64, reason: RefusalReason) -> (r: ExecutorAction)
    ensures
        refuses(r, request_id, reason),
{
    ExecutorAction::Respond(ExecutorResponse::RequestErr { request_id, message: reason.message() })
}

impl ExecutorState {
    pub fn new() -> (r: Self)
        ensures
            r@ == (ExecutorView { hello: None, forwards: Set::empty() }),
    {
        broadcast use vstd::std_specs::hash::group_hash_axioms;
        ExecutorState { hello: None, remote_forwards: HashSet::new() }
    }

    /// Takes a request, which came with a stream if `attached`, and tells what
    /// is to be done.
    pub fn handle(&mut self, request: ExecutorRequest, attached: bool) -> (r: ExecutorAction)
        ensures
            serves(old(self)@, request, attached, r),
            final(self)@ == (match request {
                ExecutorRequest::Hello(hello) => ExecutorView {
                    hello: Some(hello@),
                    ..old(self)@
                },
                ExecutorRequest::CancelRemoteForward { token, .. } => ExecutorView {
                    forwards: old(self)@.forwards.remove(token),
                    ..old(self)@
                },
                _ => old(self)@,
            }),
    {
        broadcast use vstd::std_specs::hash::group_hash_axioms;
        match request {
            ExecutorRequest::Hello(hello) => {
                self.hello = Some(hello);
                ExecutorAction::Respond(ExecutorResponse::HelloAck)
            },
            ExecutorRequest::StartProcess { request_id, request } => match &self.hello {
                None => refuse(request_id, RefusalReason::NotStarted),
                Some(hello) => {
                    if !attached {
                        return refuse(request_id, RefusalReason::NoStream(StreamUse::Process));
                    }
                    let plan = process::launch_plan(
                        hello.shell.as_str(),
                        hello.home_dir.as_str(),
                        request.env,
                        hello.exec_mode.command_flag(),
                        request.command,
                    );
                    ExecutorAction::StartProcess { request_id, pty: request.pty, plan }
                },
            },
            ExecutorRequest::StartSftp { request_id } => match &self.hello {
                None => refuse(request_id, RefusalReason::NotStarted),
                Some(hello) => {
                    if !attached {
                        return refuse(request_id, RefusalReason::NoStream(StreamUse::Sftp));
                    }
                    ExecutorAction::StartSftp {
                        request_id,
                        root: String::from_str(hello.home_dir.as_str()),
                    }
                },
            },
            ExecutorRequest::ConnectTcp { request_id, host, port } => {
                if !attached {
                    return refuse(request_id, RefusalReason::NoStream(StreamUse::DirectTcpip));
                }
                ExecutorAction::Connect { request_id, host, port }
            },
            ExecutorRequest::StartRemoteForward { request_id, token, bind_address, bind_port } =>
                ExecutorAction::Bind { request_id, token, address: bind_address, port: bind_port },
            ExecutorRequest::CancelRemoteForward { request_id, token } => {
                if self.remote_forwards.remove(&token) {
                    ExecutorAction::StopForward { request_id, token }
                } else {
                    assert(self@.forwards =~= old(self)@.forwards.remove(token));
                    refuse(request_id, RefusalReason::UnknownToken(token))
                }
            },
        }
    }

    /// A port is being listened on under a token; tells whether an older one
    /// under the same token is to be given up.
    pub fn forward_bound(&mut self, token: u64) -> (r: bool)
        ensures
            r == old(self)@.forwards.contains(token),
            final(self)@ == (ExecutorView {
                forwards: old(self)@.forwards.insert(token),
                ..old(self)@
            }),
    {
        broadcast use vstd::std_specs::hash::group_hash_axioms;
        !self.remote_forwards.insert(token)
    }

    /// The answer to a request, given what came of it.
    pub fn finish(request_id: u64, result: Result<ResponseDetail, String>) -> (r: ExecutorResponse)
        ensures
            r == (match result {
                Ok(detail) => ExecutorResponse::RequestOk { request_id, detail },
                Err(message) => ExecutorResponse::RequestErr { request_id, message },
            }),
    {
        match result {
            Ok(detail) => ExecutorResponse::RequestOk { request_id, detail },
            Err(message) => ExecutorResponse::RequestErr { request_id, message },
        }
    }
}

/// The number that an action is about.
pub open spec fn action_id(action: ExecutorAction) -> Option<u64> {
    match action {
        ExecutorAction::Respond(ExecutorResponse::RequestOk { request_id, .. }) => Some(request_id),
        ExecutorAction::Respond(ExecutorResponse::RequestErr { request_id, .. }) => Some(
            request_id,
        ),
        ExecutorAction::Respond(_) => None,
        ExecutorAction::StartProcess { request_id, .. } => Some(request_id),
        ExecutorAction::StartSftp { request_id, .. } => Some(request_id),
        ExecutorAction::Connect { request_id, .. } => Some(request_id),
        ExecutorAction::Bind { request_id, .. } => Some(request_id),
        ExecutorAction::StopForward { request_id, .. } => Some(request_id),
    }
}

/// Every request is answered under its own number.
pub proof fn law_answers_carry_the_request_number(
    before: ExecutorView,
    request: ExecutorRequest,
    attached: bool,
    action: ExecutorAction,
)
    requires
        serves(before, request, attached, action),
    ensures
        action_id(action) == id_of(request),
{
}

/// Before the executor has been told how to start sessions it starts none.
pub proof fn law_nothing_starts_before_hello(
    before: ExecutorView,
    request: ExecutorRequest,
    attached: bool,
    action: ExecutorAction,
)
    requires
        before.hello is None,
        serves(before, request, attached, action),
    ensures
        !(action is StartProcess),
        !(action is StartSftp),
{
}

/// A connection that is to be handed on to a client.
#[derive(Debug)]
pub struct RemoteForwardRegistration {
    /// The number of the client's connection.
    pub session: u64,
    pub connected_address: String,
    pub connected_port: u32,
}

/// What a `RemoteForwardRegistration` says.
pub struct RegistrationView {
    pub session: u64,
    pub connected_address: Seq<char>,
    pub connected_port: u32,
}

impl View for RemoteForwardRegistration {
    type V = RegistrationView;

    open spec fn view(&self) -> RegistrationView {
        RegistrationView {
            session: self.session,
            connected_address: self.connected_address@,
            connected_port: self.connected_port,
        }
    }
}

/// A port that the executor listens on for a client.
#[derive(Clone, Copy, Debug, PartialEq, Eq, Structural)]
pub struct StartedRemoteForward {
    pub token: u64,
    pub bound_port: u32,
}

/// What the executor was asked for.
#[derive(Clone, Copy, Debug, PartialEq, Eq, Structural)]
pub enum RequestKind {
    Process,
    Sftp,
    DirectTcpip,
    RemoteForward,
    CancelRemoteForward,
}

/// Why a request to the executor came to nothing.
#[derive(Debug)]
pub enum ClientError {
    NoHelloAck,
    NoRequestId,
    /// The executor refused.
    Refused { kind: RequestKind, message: String },
    /// The executor sent something else; `shown` is that in words.
    Unexpected { kind: RequestKind, shown: String },
    UnknownToken { token: u64 },
    /// The answer was lost.
    Dropped,
}

/// What a `ClientError` says.
pub enum ClientErrorView {
    NoHelloAck,
    NoRequestId,
    Refused { kind: RequestKind, message: Seq<char> },
    Unexpected { kind: RequestKind, shown: Seq<char> },
    UnknownToken { token: u64 },
    Dropped,
}

impl View for ClientError {
    type V = ClientErrorView;

    open spec fn view(&self) -> ClientErrorView {
        match self {
            ClientError::NoHelloAck => ClientErrorView::NoHelloAck,
            ClientError::NoRequestId => ClientErrorView::NoRequestId,
            ClientError::Refused { kind, message } => ClientErrorView::Refused {
                kind: *kind,
                message: message@,
            },
            ClientError::Unexpected { kind, shown } => ClientErrorView::Unexpected {
                kind: *kind,
                shown: shown@,
            },
            ClientError::UnknownToken { token } => ClientErrorView::UnknownToken { token: *token },
            ClientError::Dropped => ClientErrorView::Dropped,
        }
    }
}

impl RequestKind {
    pub open spec fn refusal(self) -> Seq<char> {
        match self {
            RequestKind::Process => "executor failed to start process session: "@,
            RequestKind::Sftp => "executor failed to start SFTP session: "@,
            RequestKind::DirectTcpip => "executor failed to connect outbound TCP stream: "@,
            RequestKind::RemoteForward => "executor failed to bind remote forward: "@,
            RequestKind::CancelRemoteForward => "executor failed to cancel remote forward: "@,
        }
    }

    fn refusal_text(self) -> (r: &'static str)
        ensures
            r@ == self.refusal(),
    {
        match self {
            RequestKind::Process => "executor failed to start process session: ",
            RequestKind::Sftp => "executor failed to start SFTP session: ",
            RequestKind::DirectTcpip => "executor failed to connect outbound TCP stream: ",
            RequestKind::RemoteForward => "executor failed to bind remote forward: ",
            RequestKind::CancelRemoteForward => "executor failed to cancel remote forward: ",
        }
    }

    pub open spec fn surprise(self) -> Seq<char> {
        match self {
            RequestKind::Process => "unexpected executor response to process request: "@,
            RequestKind::Sftp => "unexpected executor response to SFTP request: "@,
            RequestKind::DirectTcpip => "unexpected executor response to direct-tcpip request: "@,
            RequestKind::RemoteForward =>
                "unexpected executor response to remote-forward request: "@,
            RequestKind::CancelRemoteForward =>
                "unexpected executor response to cancel-remote-forward request: "@,
        }
    }

    fn surprise_text(self) -> (r: &'static str)
        ensures
            r@ == self.surprise(),
    {
        match self {
            RequestKind::Process => "unexpected executor response to process request: ",
            RequestKind::Sftp => "unexpected executor response to SFTP request: ",
            RequestKind::DirectTcpip => "unexpected executor response to direct-tcpip request: ",
            RequestKind::RemoteForward =>
                "unexpected executor response to remote-forward request: ",
            RequestKind::CancelRemoteForward =>
                "unexpected executor response to cancel-remote-forward request: ",
        }
    }
}

impl ClientErrorView {
    pub open spec fn message(self) -> Seq<char> {
        match self {
            ClientErrorView::NoHelloAck => "executor did not acknowledge startup handshake"@,
            ClientErrorView::NoRequestId => "executor request does not carry a request id"@,
            ClientErrorView::Refused { kind, message } => kind.refusal() + message,
            ClientErrorView::Unexpected { kind, shown } => kind.surprise() + shown,
            ClientErrorView::UnknownToken { token } => "unknown remote-forward token "@
                + text::decimal(token as nat),
            ClientErrorView::Dropped => "executor control channel dropped the response"@,
        }
    }
}

impl ClientError {
    /// The error in words.
    pub fn message(&self) -> (r: String)
        ensures
            r@ == self@.message(),
    {
        match self {
            ClientError::NoHelloAck => String::from_str(
                "executor did not acknowledge startup handshake",
            ),
            ClientError::NoRequestId => String::from_str(
                "executor request does not carry a request id",
            ),
            ClientError::Refused { kind, message } => values::sentence(
                kind.refusal_text(),
                message.as_str(),
            ),
            ClientError::Unexpected { kind, shown } => values::sentence(
                kind.surprise_text(),
                shown.as_str(),
            ),
            ClientError::UnknownToken { token } => {
                let number = text::decimal_of(*token);
                values::sentence("unknown remote-forward token ", number.as_str())
            },
            ClientError::Dropped => String::from_str(
                "executor control channel dropped the response",
            ),
        }
    }
}

/// Decides whether the executor has started.
pub fn check_hello(response: &ExecutorResponse) -> (r: Result<(), ClientError>)
    ensures
        match r {
            Ok(_) => response is HelloAck,
            Err(e) => !(response is HelloAck) && e@ == ClientErrorView::NoHelloAck,
        },
{
    match response {
        ExecutorResponse::HelloAck => Ok(()),
        _ => Err(ClientError::NoHelloAck),
    }
}

/// What an answer to a request of this kind amounts to: only an answer to a
/// request to listen has to tell the port.
pub open spec fn interpreted(kind: RequestKind, response: ExecutorResponse, shown: Seq<char>) -> Result<
    Option<u16>,
    ClientErrorView,
> {
    match response {
        ExecutorResponse::RequestOk { detail, .. } => match (kind, detail) {
            (RequestKind::RemoteForward, ResponseDetail::BoundPort(port)) => Ok(Some(port)),
            (RequestKind::RemoteForward, ResponseDetail::Empty) => Err(
                ClientErrorView::Unexpected { kind, shown },
            ),
            _ => Ok(None),
        },
        ExecutorResponse::RequestErr { message, .. } => Err(
            ClientErrorView::Refused { kind, message: message@ },
        ),
        _ => Err(ClientErrorView::Unexpected { kind, shown }),
    }
}

/// What the result of reading an answer stands for.
pub open spec fn answer_outcome(r: Result<Option<u16>, ClientError>) -> Result<
    Option<u16>,
    ClientErrorView,
> {
    match r {
        Ok(port) => Ok(port),
        Err(e) => Err(e@),
    }
}

/// Reads the answer to a request; `shown` is the answer in words.
pub fn interpret_response(kind: RequestKind, response: ExecutorResponse, shown: &str) -> (r: Result<
    Option<u16>,
    ClientError,
>)
    ensures
        answer_outcome(r) == interpreted(kind, response, shown@),
{
    match response {
        ExecutorResponse::RequestOk { detail, .. } => match (kind, detail) {
            (RequestKind::RemoteForward, ResponseDetail::BoundPort(port)) => Ok(Some(port)),
            (RequestKind::RemoteForward, ResponseDetail::Empty) => Err(
                ClientError::Unexpected { kind, shown: String::from_str(shown) },
            ),
            _ => Ok(None),
        },
        ExecutorResponse::RequestErr { message, .. } => Err(
            ClientError::Refused { kind, message },
        ),
        _ => Err(ClientError::Unexpected { kind, shown: String::from_str(shown) }),
    }
}

/// What is to be done with a message from the executor.
#[derive(Debug)]
pub enum Delivery {
    /// It answers the request with this number.
    Answer { request_id: u64, response: ExecutorResponse },
    /// It answers nothing that was asked.
    Unclaimed,
    /// Somebody connected to a port that is listened on.
    Incoming { token: u64, originator_address: String, originator_port: u32 },
    /// The same, but the connection did not come with it.
    MissingSocket { token: u64 },
    /// It acknowledges the start a second time.
    UnexpectedHello,
}

/// The listening process's side of the control channel.
pub struct ExecutorClient {
    next_request_id: u64,
    next_forward_token: u64,
    pending: HashSet<u64>,
    remote_forwards: HashMap<u64, RemoteForwardRegistration>,
}

/// What the listening process knows of its requests.
pub struct ClientView {
    pub next_request_id: u64,
    pub next_forward_token: u64,
    /// The requests that wait for an answer.
    pub pending: Set<u64>,
    pub forwards: Map<u64, RegistrationView>,
}

impl View for ExecutorClient {
    type V = ClientView;

    closed spec fn view(&self) -> ClientView {
        ClientView {
            next_request_id: self.next_request_id,
            next_forward_token: self.next_forward_token,
            pending: self.pending@,
            forwards: self.remote_forwards@.map_values(|r: RemoteForwardRegistration| r@),
        }
    }
}

/// The number behind `n`; the numbers start over behind the largest.
pub open spec fn number_after(n: u64) -> u64 {
    if n < u64::MAX {
        (n + 1) as u64
    } else {
        0
    }
}

impl ClientView {
    /// The state once a request has been numbered.
    pub open spec fn numbered(self) -> ClientView {
        ClientView { next_request_id: number_after(self.next_request_id), ..self }
    }

    /// The state once the request with a number waits for an answer.
    pub open spec fn awaiting(self, id: u64) -> ClientView {
        ClientView { pending: self.pending.insert(id), ..self }
    }

    /// Whether every request that waits was numbered before the next one.
    pub open spec fn in_order(self) -> bool {
        forall|id: u64| #[trigger] self.pending.contains(id) ==> id < self.next_request_id
    }

    /// Whether `delivery` is what a message, with a socket if `attached`, leads
    /// to.
    pub open spec fn delivers(
        self,
        response: ExecutorResponse,
        attached: bool,
        delivery: Delivery,
    ) -> bool {
        match response {
            ExecutorResponse::RequestOk { request_id, .. } => if self.pending.contains(request_id) {
                delivery == (Delivery::Answer { request_id, response })
            } else {
                delivery is Unclaimed
            },
            ExecutorResponse::RequestErr { request_id, .. } => if self.pending.contains(
                request_id,
            ) {
                delivery == (Delivery::Answer { request_id, response })
            } else {
                delivery is Unclaimed
            },
            ExecutorResponse::RemoteForwardIncoming {
                token,
                originator_address,
                originator_port,
            } => if attached {
                delivery == (Delivery::Incoming { token, originator_address, originator_port })
            } else {
                delivery == (Delivery::MissingSocket { token })
            },
            ExecutorResponse::HelloAck => delivery is UnexpectedHello,
        }
    }
}

impl ExecutorClient {
    pub fn new() -> (r: Self)
        ensures
            r@ == (ClientView {
                next_request_id: 1,
                next_forward_token: 1,
                pending: Set::empty(),
                forwards: Map::empty(),
            }),
    {
        broadcast use vstd::std_specs::hash::group_hash_axioms;
        let r = ExecutorClient {
            next_request_id: 1,
            next_forward_token: 1,
            pending: HashSet::new(),
            remote_forwards: HashMap::new(),
        };
        assert(r@.forwards =~= Map::<u64, RegistrationView>::empty());
        r
    }

    pub fn next_request_id(&mut self) -> (r: u64)
        ensures
            r == old(self)@.next_request_id,
            final(self)@ == old(self)@.numbered(),
    {
        let id: u64 = self.next_request_id;
        self.next_request_id = id.wrapping_add(1);
        id
    }

    pub fn next_forward_token(&mut self) -> (r: u64)
        ensures
            r == old(self)@.next_forward_token,
            final(self)@ == (ClientView {
                next_forward_token: number_after(old(self)@.next_forward_token),
                ..old(self)@
            }),
    {
        let token: u64 = self.next_forward_token;
        self.next_forward_token = token.wrapping_add(1);
        token
    }

    /// Takes note of a request that is about to be sent.
    pub fn begin(&mut self, request: &ExecutorRequest) -> (r: Result<u64, ClientError>)
        ensures
            match id_of(*request) {
                Some(id) => r == Ok::<u64, ClientError>(id) && final(self)@ == old(self)@.awaiting(
                    id,
                ),
                None => r is Err && r->Err_0@ == ClientErrorView::NoRequestId && final(self)@
                    == old(self)@,
            },
    {
        broadcast use vstd::std_specs::hash::group_hash_axioms;
        match request_id(request) {
            Some(id) => {
                self.pending.insert(id);
                Ok(id)
            },
            None => Err(ClientError::NoRequestId),
        }
    }

    /// Asks for a process.
    pub fn start_process(&mut self, request: ProcessRequest) -> (r: ExecutorRequest)
        ensures
            r == (ExecutorRequest::StartProcess {
                request_id: old(self)@.next_request_id,
                request,
            }),
            final(self)@ == old(self)@.numbered(),
    {
        let request_id = self.next_request_id();
        ExecutorRequest::StartProcess { request_id, request }
    }

    /// Asks for access to files.
    pub fn start_sftp(&mut self) -> (r: ExecutorRequest)
        ensures
            r == (ExecutorRequest::StartSftp { request_id: old(self)@.next_request_id }),
            final(self)@ == old(self)@.numbered(),
    {
        let request_id = self.next_request_id();
        ExecutorRequest::StartSftp { request_id }
    }

    /// Asks for a connection.
    pub fn connect_tcp(&mut self, host: String, port: u16) -> (r: ExecutorRequest)
        ensures
            r == (ExecutorRequest::ConnectTcp {
                request_id: old(self)@.next_request_id,
                host,
                port,
            }),
            final(self)@ == old(self)@.numbered(),
    {
        let request_id = self.next_request_id();
        ExecutorRequest::ConnectTcp { request_id, host, port }
    }

    /// Asks for a port to be listened on, under a token of its own.
    pub fn start_remote_forward(&mut self, bind_address: String, bind_port: u16) -> (r:
        ExecutorRequest)
        ensures
            r == (ExecutorRequest::StartRemoteForward {
                request_id: old(self)@.next_request_id,
                token: old(self)@.next_forward_token,
                bind_address,
                bind_port,
            }),
            final(self)@ == (ClientView {
                next_forward_token: number_after(old(self)@.next_forward_token),
                ..old(self)@.numbered()
            }),
    {
        let request_id = self.next_request_id();
        let token = self.next_forward_token();
        ExecutorRequest::StartRemoteForward { request_id, token, bind_address, bind_port }
    }

    /// Forgets a port that was listened on, and asks for an end of it.
    pub fn cancel_remote_forward(&mut self, token: u64) -> (r: ExecutorRequest)
        ensures
            r == (ExecutorRequest::CancelRemoteForward {
                request_id: old(self)@.next_request_id,
                token,
            }),
            final(self)@ == (ClientView {
                forwards: old(self)@.forwards.remove(token),
                ..old(self)@.numbered()
            }),
    {
        self.forward_cancelled(token);
        let request_id = self.next_request_id();
        ExecutorRequest::CancelRemoteForward { request_id, token }
    }

    /// A request could not be sent.
    pub fn send_failed(&mut self, id: u64)
        ensures
            final(self)@ == (ClientView {
                pending: old(self)@.pending.remove(id),
                ..old(self)@
            }),
    {
        broadcast use vstd::std_specs::hash::group_hash_axioms;
        self.pending.remove(&id);
        assert(self@.pending =~= old(self)@.pending.remove(id));
    }

    /// Takes a message from the executor, with a socket if `attached`.
    pub fn on_response(&mut self, response: ExecutorResponse, attached: bool) -> (r: Delivery)
        ensures
            old(self)@.delivers(response, attached, r),
            final(self)@ == (match r {
                Delivery::Answer { request_id, .. } => ClientView {
                    pending: old(self)@.pending.remove(request_id),
                    ..old(self)@
                },
                _ => old(self)@,
            }),
    {
        broadcast use vstd::std_specs::hash::group_hash_axioms;
        match response {
            ExecutorResponse::RequestOk { request_id, detail } => {
                if self.pending.remove(&request_id) {
                    Delivery::Answer {
                        request_id,
                        response: ExecutorResponse::RequestOk { request_id, detail },
                    }
                } else {
                    assert(self@.pending =~= old(self)@.pending);
                    Delivery::Unclaimed
                }
            },
            ExecutorResponse::RequestErr { request_id, message } => {
                if self.pending.remove(&request_id) {
                    Delivery::Answer {
                        request_id,
                        response: ExecutorResponse::RequestErr { request_id, message },
                    }
                } else {
                    assert(self@.pending =~= old(self)@.pending);
                    Delivery::Unclaimed
                }
            },
            ExecutorResponse::RemoteForwardIncoming {
                token,
                originator_address,
                originator_port,
            } => {
                if attached {
                    Delivery::Incoming { token, originator_address, originator_port }
                } else {
                    Delivery::MissingSocket { token }
                }
            },
            ExecutorResponse::HelloAck => Delivery::UnexpectedHello,
        }
    }

    /// The control channel is closed: no request waits any more. What comes
    /// back is the answer that each of them gets.
    pub fn on_closed(&mut self) -> (r: ExecutorResponse)
        ensures
            final(self)@ == (ClientView { pending: Set::empty(), ..old(self)@ }),
            r matches ExecutorResponse::RequestErr { request_id, message } && request_id == 0
                && message@ == "executor control channel closed"@,
    {
        broadcast use vstd::std_specs::hash::group_hash_axioms;
        self.pending = HashSet::new();
        ExecutorResponse::RequestErr {
            request_id: 0,
            message: String::from_str("executor control channel closed"),
        }
    }

    /// A port is being listened on for a client.
    pub fn forward_started(
        &mut self,
        token: u64,
        session: u64,
        connected_address: String,
        bound_port: u16,
    ) -> (r: StartedRemoteForward)
        ensures
            r == (StartedRemoteForward { token, bound_port: bound_port as u32 }),
            final(self)@ == (ClientView {
                forwards: old(self)@.forwards.insert(
                    token,
                    RegistrationView {
                        session,
                        connected_address: connected_address@,
                        connected_port: bound_port as u32,
                    },
                ),
                ..old(self)@
            }),
    {
        broadcast use vstd::std_specs::hash::group_hash_axioms;
        let registration = RemoteForwardRegistration {
            session,
            connected_address,
            connected_port: bound_port as u32,
        };
        let ghost v = registration@;
        self.remote_forwards.insert(token, registration);
        assert(self@.forwards =~= old(self)@.forwards.insert(token, v));
        StartedRemoteForward { token, bound_port: bound_port as u32 }
    }

    /// A client no longer wants a port to be listened on.
    pub fn forward_cancelled(&mut self, token: u64)
        ensures
            final(self)@ == (ClientView {
                forwards: old(self)@.forwards.remove(token),
                ..old(self)@
            }),
    {
        broadcast use vstd::std_specs::hash::group_hash_axioms;
        self.remote_forwards.remove(&token);
        assert(self@.forwards =~= old(self)@.forwards.remove(token));
    }

    /// Finds the client that an incoming connection belongs to.
    pub fn registration(&self, token: u64) -> (r: Result<RemoteForwardRegistration, ClientError>)
        ensures
            match r {
                Ok(found) => self@.forwards.contains_key(token) && self@.forwards[token] == found@,
                Err(e) => !self@.forwards.contains_key(token) && e@
                    == (ClientErrorView::UnknownToken { token }),
            },
    {
        broadcast use vstd::std_specs::hash::group_hash_axioms;
        match self.remote_forwards.get(&token) {
            Some(found) => Ok(
                RemoteForwardRegistration {
                    session: found.session,
                    connected_address: String::from_str(found.connected_address.as_str()),
                    connected_port: found.connected_port,
                },
            ),
            None => Err(ClientError::UnknownToken { token }),
        }
    }
}

/// A new request never takes the number of one that still waits, as long as the
/// numbers have not started over.
pub proof fn law_request_numbers_are_fresh(c: ClientView)
    requires
        c.in_order(),
        c.next_request_id < u64::MAX,
    ensures
        !c.pending.contains(c.next_request_id),
        c.numbered().awaiting(c.next_request_id).in_order(),
        forall|id: u64|
            #![trigger c.pending.remove(id)]
            (ClientView { pending: c.pending.remove(id), ..c }).in_order(),
{
}

/// An answer reaches the request that it belongs to, and only once.
pub proof fn law_answers_are_delivered_once(
    c: ClientView,
    response: ExecutorResponse,
    attached: bool,
    delivery: Delivery,
    again: Delivery,
)
    requires
        c.delivers(response, attached, delivery),
        delivery is Answer,
        (ClientView {
            pending: c.pending.remove(delivery->Answer_request_id),
            ..c
        }).delivers(response, attached, again),
    ensures
        c.pending.contains(delivery->Answer_request_id),
        delivery->Answer_response == response,
        again is Unclaimed,
{
}

/// A connection that came in under a token is handed to the client that asked
/// for the port, as long as that client has not taken it back.
pub proof fn law_forward_finds_its_client(c: ClientView, token: u64, reg: RegistrationView, other: u64)
    ensures
        (ClientView { forwards: c.forwards.insert(token, reg), ..c }).forwards[token] == reg,
        !(ClientView { forwards: c.forwards.remove(token), ..c }).forwards.contains_key(token),
        other != token && c.forwards.contains_key(other) ==> c.forwards.insert(token, reg)[other]
            == c.forwards[other] && c.forwards.remove(token)[other] == c.forwards[other],
{
}

/// A message that is framed reads back: the four bytes in front tell its length,
/// and what follows them is the message. One of more than a mebibyte is refused
/// by the reader, whatever it holds.
pub proof fn law_frame_tells_the_length(
    payload: &Vec<u8>,
    frame: Result<Vec<u8>, FrameError>,
    header: HeaderRead,
    length: Result<Option<usize>, FrameError>,
)
    requires
        call_ensures(frame_message, (payload,), frame),
        frame matches Ok(bytes) ==> header == HeaderRead::Bytes(
            bytes@[0],
            bytes@[1],
            bytes@[2],
            bytes@[3],
        ),
        call_ensures(frame_length, (header,), length),
    ensures
        frame is Ok <==> payload@.len() <= 0xffff_ffff,
        frame is Err ==> frame->Err_0 is TooLarge,
        frame matches Ok(bytes) ==> {
            &&& bytes@.len() == payload@.len() + 4
            &&& bytes@.skip(4) == payload@
            &&& payload@.len() <= 1_048_576 ==> length == Ok::<Option<usize>, FrameError>(
                Some(payload@.len() as usize),
            )
            &&& payload@.len() > 1_048_576 ==> length == Err::<Option<usize>, FrameError>(
                FrameError::TooLong { length: payload@.len() as usize },
            )
        },
{
    if frame is Ok {
        let n = payload@.len();
        let bytes = frame->Ok_0@;
        assert(bytes[0] == header_of(n)[0]);
        assert(bytes[1] == header_of(n)[1]);
        assert(bytes[2] == header_of(n)[2]);
        assert(bytes[3] == header_of(n)[3]);
        assert(header_value(bytes[0], bytes[1], bytes[2], bytes[3]) == n);
        assert(bytes.skip(4) =~= payload@);
    }
}

/// The end of a stream between messages is no error, and a length that cannot
/// be read is one; the most significant byte comes first.
pub proof fn law_stream_ends_between_messages(
    header: HeaderRead,
    length: Result<Option<usize>, FrameError>,
)
    requires
        call_ensures(frame_length, (header,), length),
    ensures
        header is Eof <==> length is Ok && length->Ok_0 is None,
        header is Failed <==> length is Err && length->Err_0 is LengthUnreadable,
        header matches HeaderRead::Bytes(a, b, c, d) ==> match length {
            Ok(Some(n)) => n == ((a * 256 + b) * 256 + c) * 256 + d && n <= 1_048_576,
            Err(FrameError::TooLong { length: n }) => n == ((a * 256 + b) * 256 + c) * 256 + d && n
                > 1_048_576,
            _ => false,
        },
        MAX_CONTROL_MESSAGE_SIZE == 64 * 1024,
{
}

/// A descriptor that came with a message is either handed on or closed, and none
/// is both: one alone is handed on, several are all closed, and so is one that
/// came with the end of the channel.
pub proof fn law_descriptors_are_kept_or_closed(bytes: usize, fds: Vec<i32>, r: SortedFds)
    requires
        call_ensures(sort_fds, (bytes, fds), r),
    ensures
        r.attached is Ok <==> bytes > 0 && fds@.len() <= 1,
        r.attached is Err ==> r.close@ == fds@,
        r.attached is Ok ==> r.close@.len() == 0,
        r.attached matches Ok(Some(fd)) ==> fds@ == seq![fd],
        r.attached matches Ok(None) ==> fds@.len() == 0,
        bytes == 0 ==> r.attached->Err_0 is Eof,
        bytes > 0 && fds@.len() > 1 ==> r.attached->Err_0 is TooManyFds,
{
    if r.attached is Ok && r.attached->Ok_0 is Some {
        assert(fds@ =~= seq![r.attached->Ok_0->0]);
    }
}

/// The executor does what a request asks for, as it asks for it: it connects to
/// the very host and port, listens on the very address and port under the very
/// token, starts the command on the terminal that was asked for and serves the
/// files of the home directory. Nothing is started without a stream, and nothing
/// is stopped but a port that is listened on.
pub proof fn law_executor_does_what_is_asked(
    executor: &mut ExecutorState,
    request: ExecutorRequest,
    attached: bool,
    action: ExecutorAction,
)
    requires
        call_ensures(ExecutorState::handle, (executor, request, attached), action),
    ensures
        request is Hello ==> action == ExecutorAction::Respond(ExecutorResponse::HelloAck),
        request matches ExecutorRequest::ConnectTcp { request_id, host, port } ==> {
            &&& attached <==> action is Connect
            &&& action matches ExecutorAction::Connect { request_id: i, host: h, port: p } ==> i
                == request_id && h@ == host@ && p == port
        },
        request matches ExecutorRequest::StartRemoteForward {
            request_id,
            token,
            bind_address,
            bind_port,
        } ==> (action matches ExecutorAction::Bind { request_id: i, token: t, address: a, port: p }
            && i == request_id && t == token && a@ == bind_address@ && p == bind_port),
        request matches ExecutorRequest::CancelRemoteForward { request_id, token } ==> {
            &&& old(executor)@.forwards.contains(token) <==> action is StopForward
            &&& action matches ExecutorAction::StopForward { request_id: i, token: t } ==> i
                == request_id && t == token
            &&& !final(executor)@.forwards.contains(token)
        },
        request matches ExecutorRequest::StartSftp { request_id } ==> {
            &&& attached && old(executor)@.hello is Some <==> action is StartSftp
            &&& action matches ExecutorAction::StartSftp { request_id: i, root } ==> i
                == request_id && root@ == old(executor)@.hello->0.home_dir
        },
        request matches ExecutorRequest::StartProcess { request_id, request: wanted } ==> {
            &&& attached && old(executor)@.hello is Some <==> action is StartProcess
            &&& action matches ExecutorAction::StartProcess { request_id: i, pty, plan } ==> {
                &&& i == request_id
                &&& pty == wanted.pty
                &&& plan.program@ == old(executor)@.hello->0.shell
                &&& plan.cwd@ == old(executor)@.hello->0.home_dir
                &&& plan.env@ == wanted.env@
                &&& wanted.command is None ==> plan@.args.len() == 0
                &&& wanted.command is Some ==> plan@.args.len() == 2 && plan@.args[0]
                    == old(executor)@.hello->0.exec_mode.flag() && plan@.args[1]
                    == wanted.command->0@
            }
        },
        action is Bind || action is Connect || action is StopForward || action is StartSftp
            || action is StartProcess || request is Hello || (action matches
            ExecutorAction::Respond(response) && response is RequestErr),
{
}

/// The executor keeps what it was told at the start and the ports that it
/// listens on, and nothing else changes them: a start replaces the first, an end
/// takes one port out, and a port that is bound is added.
pub proof fn law_executor_remembers_its_ports(
    executor: &mut ExecutorState,
    request: ExecutorRequest,
    attached: bool,
    action: ExecutorAction,
    token: u64,
)
    requires
        call_ensures(ExecutorState::handle, (executor, request, attached), action),
    ensures
        request matches ExecutorRequest::Hello(hello) ==> final(executor)@.hello is Some
            && final(executor)@.hello->0.home_dir == hello.home_dir@
            && final(executor)@.hello->0.shell == hello.shell@
            && final(executor)@.hello->0.exec_mode == hello.exec_mode,
        !(request is Hello) ==> final(executor)@.hello == old(executor)@.hello,
        final(executor)@.forwards.contains(token) <==> old(executor)@.forwards.contains(token)
            && !(request is CancelRemoteForward && request->CancelRemoteForward_token == token),
{
}

/// A port that is bound is listened on under its token until it is taken back;
/// an older one under the same token is given up.
pub proof fn law_bound_port_is_listened_on(
    executor: &mut ExecutorState,
    token: u64,
    replaced: bool,
    other: u64,
)
    requires
        call_ensures(ExecutorState::forward_bound, (executor, token), replaced),
    ensures
        final(executor)@.forwards.contains(token),
        replaced <==> old(executor)@.forwards.contains(token),
        other != token ==> (final(executor)@.forwards.contains(other)
            <==> old(executor)@.forwards.contains(other)),
        final(executor)@.hello == old(executor)@.hello,
{
}

/// A new executor has not been told anything and listens on nothing.
pub proof fn law_executor_starts_empty(executor: ExecutorState, token: u64)
    requires
        call_ensures(ExecutorState::new, (), executor),
    ensures
        executor@.hello is None,
        !executor@.forwards.contains(token),
{
}

/// What came of a request is answered under its number: with what it gave, or
/// with why it failed.
pub proof fn law_outcome_is_answered(
    request_id: u64,
    result: Result<ResponseDetail, String>,
    response: ExecutorResponse,
)
    requires
        call_ensures(ExecutorState::finish, (request_id, result), response),
    ensures
        result is Ok ==> response == (ExecutorResponse::RequestOk {
            request_id,
            detail: result->Ok_0,
        }),
        result is Err ==> response == (ExecutorResponse::RequestErr {
            request_id,
            message: result->Err_0,
        }),
{
}

/// An answer means what it says: a refusal is an error with the executor's own
/// words; success of a request to listen tells the port, and fails without it;
/// success of any other request needs no more. A message that is no answer is an
/// error.
pub proof fn law_answers_mean_what_they_say(
    kind: RequestKind,
    response: ExecutorResponse,
    shown: &str,
    r: Result<Option<u16>, ClientError>,
)
    requires
        call_ensures(interpret_response, (kind, response, shown), r),
    ensures
        response matches ExecutorResponse::RequestErr { message, .. } ==> r is Err && r->Err_0@ == (
        ClientErrorView::Refused { kind, message: message@ }),
        response matches ExecutorResponse::RequestOk { detail, .. } ==> {
            &&& !(kind is RemoteForward) ==> r == Ok::<Option<u16>, ClientError>(None)
            &&& kind is RemoteForward && detail is BoundPort ==> r == Ok::<
                Option<u16>,
                ClientError,
            >(Some(detail->BoundPort_0))
            &&& kind is RemoteForward && detail is Empty ==> r is Err && r->Err_0@ == (
            ClientErrorView::Unexpected { kind, shown: shown@ })
        },
        response is HelloAck || response is RemoteForwardIncoming ==> r is Err && r->Err_0@ == (
        ClientErrorView::Unexpected { kind, shown: shown@ }),
{
}

/// Only an acknowledgement is one.
pub proof fn law_start_is_acknowledged(response: &ExecutorResponse, r: Result<(), ClientError>)
    requires
        call_ensures(check_hello, (response,), r),
    ensures
        r is Ok <==> *response is HelloAck,
{
}

/// A request that is asked for carries what it was asked with, under a number of
/// its own; the next one has another.
pub proof fn law_requests_carry_what_was_asked(
    a: &mut ExecutorClient,
    b: &mut ExecutorClient,
    c: &mut ExecutorClient,
    wanted: ProcessRequest,
    host: String,
    port: u16,
    process: ExecutorRequest,
    connection: ExecutorRequest,
    files: ExecutorRequest,
)
    requires
        call_ensures(ExecutorClient::start_process, (a, wanted), process),
        call_ensures(ExecutorClient::connect_tcp, (b, host, port), connection),
        call_ensures(ExecutorClient::start_sftp, (c,), files),
    ensures
        process matches ExecutorRequest::StartProcess { request_id, request } && request_id
            == old(a)@.next_request_id && request == wanted,
        connection matches ExecutorRequest::ConnectTcp { request_id, host: h, port: p }
            && request_id == old(b)@.next_request_id && h@ == host@ && p == port,
        files matches ExecutorRequest::StartSftp { request_id } && request_id
            == old(c)@.next_request_id,
        final(a)@.next_request_id != old(a)@.next_request_id,
        final(b)@.next_request_id != old(b)@.next_request_id,
        final(c)@.next_request_id != old(c)@.next_request_id,
        final(a)@.pending == old(a)@.pending,
        final(b)@.forwards == old(b)@.forwards,
{
}

/// A request to listen carries the address and the port, and a token that no
/// later one has; a request to stop carries the token, and what was known of it
/// is forgotten.
pub proof fn law_forward_requests_carry_their_token(
    a: &mut ExecutorClient,
    b: &mut ExecutorClient,
    address: String,
    port: u16,
    start: ExecutorRequest,
    token: u64,
    stop: ExecutorRequest,
)
    requires
        call_ensures(ExecutorClient::start_remote_forward, (a, address, port), start),
        call_ensures(ExecutorClient::cancel_remote_forward, (b, token), stop),
    ensures
        start matches ExecutorRequest::StartRemoteForward {
            request_id,
            token: t,
            bind_address,
            bind_port,
        } && request_id == old(a)@.next_request_id && t == old(a)@.next_forward_token
            && bind_address@ == address@ && bind_port == port,
        final(a)@.next_forward_token != old(a)@.next_forward_token,
        final(a)@.next_request_id != old(a)@.next_request_id,
        stop matches ExecutorRequest::CancelRemoteForward { request_id, token: t } && request_id
            == old(b)@.next_request_id && t == token,
        !final(b)@.forwards.contains_key(token),
{
}

/// A request that is sent waits for its answer, unless it cannot be sent; the
/// start alone has no number to wait under.
pub proof fn law_sent_requests_wait(
    sent: &mut ExecutorClient,
    failed: &mut ExecutorClient,
    request: &ExecutorRequest,
    r: Result<u64, ClientError>,
    id: u64,
    other: u64,
)
    requires
        call_ensures(ExecutorClient::begin, (sent, request), r),
        call_ensures(ExecutorClient::send_failed, (failed, id), ()),
    ensures
        r is Err <==> *request is Hello,
        r matches Ok(number) ==> final(sent)@.pending.contains(number) && match *request {
            ExecutorRequest::StartProcess { request_id, .. } => number == request_id,
            ExecutorRequest::StartSftp { request_id } => number == request_id,
            ExecutorRequest::ConnectTcp { request_id, .. } => number == request_id,
            ExecutorRequest::StartRemoteForward { request_id, .. } => number == request_id,
            ExecutorRequest::CancelRemoteForward { request_id, .. } => number == request_id,
            ExecutorRequest::Hello(_) => false,
        },
        old(sent)@.pending.contains(other) ==> final(sent)@.pending.contains(other),
        !final(failed)@.pending.contains(id),
        other != id ==> (final(failed)@.pending.contains(other)
            <==> old(failed)@.pending.contains(other)),
{
}

/// A message from the executor goes where it belongs: an answer to the request
/// that waits for it, a connection to the client whose port it came in on, with
/// its origin. An answer that nothing waits for, a connection without a socket
/// and a second acknowledgement go nowhere.
pub proof fn law_messages_go_where_they_belong(
    client: &mut ExecutorClient,
    response: ExecutorResponse,
    attached: bool,
    delivery: Delivery,
    other: u64,
)
    requires
        call_ensures(ExecutorClient::on_response, (client, response, attached), delivery),
    ensures
        response matches ExecutorResponse::RequestOk { request_id, .. } ==> {
            &&& old(client)@.pending.contains(request_id) ==> delivery == (Delivery::Answer {
                request_id,
                response,
            })
            &&& !old(client)@.pending.contains(request_id) ==> delivery is Unclaimed
            &&& !final(client)@.pending.contains(request_id)
        },
        response matches ExecutorResponse::RequestErr { request_id, .. } ==> {
            &&& old(client)@.pending.contains(request_id) ==> delivery == (Delivery::Answer {
                request_id,
                response,
            })
            &&& !old(client)@.pending.contains(request_id) ==> delivery is Unclaimed
            &&& !final(client)@.pending.contains(request_id)
        },
        response matches ExecutorResponse::RemoteForwardIncoming {
            token,
            originator_address,
            originator_port,
        } ==> if attached {
            delivery == (Delivery::Incoming { token, originator_address, originator_port })
        } else {
            delivery == (Delivery::MissingSocket { token })
        },
        response is HelloAck ==> delivery is UnexpectedHello,
        delivery matches Delivery::Answer { request_id, .. } ==> (other != request_id ==> (
        final(client)@.pending.contains(other) <==> old(client)@.pending.contains(other))),
        !(delivery is Answer) ==> final(client)@ == old(client)@,
        final(client)@.forwards == old(client)@.forwards,
{
    if response is RequestOk && !old(client)@.pending.contains(response->RequestOk_request_id) {
        assert(final(client)@ == old(client)@);
    }
}

/// When the control channel closes nothing waits any more, and what waited is
/// told of a failure.
pub proof fn law_closing_ends_the_waiting(
    client: &mut ExecutorClient,
    response: ExecutorResponse,
    id: u64,
)
    requires
        call_ensures(ExecutorClient::on_closed, (client,), response),
    ensures
        !final(client)@.pending.contains(id),
        response is RequestErr,
        final(client)@.forwards == old(client)@.forwards,
{
}

/// A port that is listened on is known by its token, with the client, the
/// address and the port that connections are announced under, until it is taken
/// back; the others stay as they are.
pub proof fn law_started_forward_is_known(
    client: &mut ExecutorClient,
    token: u64,
    session: u64,
    address: String,
    port: u16,
    started: StartedRemoteForward,
    other: u64,
)
    requires
        call_ensures(
            ExecutorClient::forward_started,
            (client, token, session, address, port),
            started,
        ),
    ensures
        started.token == token,
        started.bound_port == port,
        final(client)@.forwards.contains_key(token),
        final(client)@.forwards[token].session == session,
        final(client)@.forwards[token].connected_address == address@,
        final(client)@.forwards[token].connected_port == port,
        other != token ==> (final(client)@.forwards.contains_key(other)
            <==> old(client)@.forwards.contains_key(other)),
        final(client)@.pending == old(client)@.pending,
{
}

/// The client of a connection is found exactly while its port is listened on.
pub proof fn law_registration_is_found(
    client: &ExecutorClient,
    token: u64,
    r: Result<RemoteForwardRegistration, ClientError>,
)
    requires
        call_ensures(ExecutorClient::registration, (client, token), r),
    ensures
        r is Ok <==> client@.forwards.contains_key(token),
        r matches Ok(found) ==> found.session == client@.forwards[token].session
            && found.connected_address@ == client@.forwards[token].connected_address
            && found.connected_port == client@.forwards[token].connected_port,
        r matches Err(e) ==> e@ == (ClientErrorView::UnknownToken { token }),
{
}

/// A new client has asked for nothing, and its numbers begin behind zero, which
/// stands for no request.
pub proof fn law_client_starts_empty(client: ExecutorClient, id: u64)
    requires
        call_ensures(ExecutorClient::new, (), client),
    ensures
        !client@.pending.contains(id),
        !client@.forwards.contains_key(id),
        client@.next_request_id > 0,
        client@.next_forward_token > 0,
        client@.in_order(),
{
}

/// The executor is started by its own flag and told the descriptor that its
/// requests come by.
pub proof fn law_executor_is_started_by_its_flag(args: Vec<String>)
    requires
        call_ensures(executor_args, (), args),
    ensures
        args@.len() == 3,
        args@[0]@ == "--internal-executor"@,
        args@[1]@ == "--control-fd"@,
        args@[2]@ == text::decimal(3),
{
    let all = process::strings(args@);
    assert(all.len() == 3);
    assert(all[0] == args@[0]@);
    assert(all[1] == args@[1]@);
    assert(all[2] == args@[2]@);
}

/// Numbers that the client gives out grow by one; a forward that has been taken
/// back is known no more, and the others stay.
pub proof fn law_numbers_grow_and_forwards_go(
    requests: &mut ExecutorClient,
    id: u64,
    tokens: &mut ExecutorClient,
    token: u64,
    cancelled: &mut ExecutorClient,
    gone: u64,
    other: u64,
)
    requires
        call_ensures(ExecutorClient::next_request_id, (requests,), id),
        call_ensures(ExecutorClient::next_forward_token, (tokens,), token),
        call_ensures(ExecutorClient::forward_cancelled, (cancelled, gone), ()),
    ensures
        id == old(requests)@.next_request_id,
        id < u64::MAX ==> final(requests)@.next_request_id == id + 1,
        final(requests)@.next_forward_token == old(requests)@.next_forward_token,
        final(requests)@.forwards == old(requests)@.forwards,
        token == old(tokens)@.next_forward_token,
        token < u64::MAX ==> final(tokens)@.next_forward_token == token + 1,
        final(tokens)@.next_request_id == old(tokens)@.next_request_id,
        !final(cancelled)@.forwards.contains_key(gone),
        other != gone ==> final(cancelled)@.forwards.contains_key(other) == old(cancelled)@.forwards.contains_key(other),
        other != gone && old(cancelled)@.forwards.contains_key(other) ==> final(cancelled)@.forwards[other] == old(cancelled)@.forwards[other],
{
}

/// What is wrong with a message of a session is told in its own words.
pub proof fn law_frame_errors_are_told_in_words(e: FrameError, words: String)
    requires
        call_ensures(FrameError::message, (e,), words),
    ensures
        words@ == (match e {
            FrameError::LengthUnreadable => "failed to read session message length"@,
            FrameError::TooLong { length } => "session message length "@ + text::decimal(
                length as nat,
            ) + " exceeds the maximum supported size"@,
            FrameError::BodyUnreadable => "failed to read session message body"@,
            FrameError::TooLarge => "session message too large"@,
        }),
{
}

/// Why the executor refuses a request is told in words that name what is missing.
pub proof fn law_executor_refusals_are_told_in_words(e: RefusalReason, words: String)
    requires
        call_ensures(RefusalReason::message, (e,), words),
    ensures
        words@ == (match e {
            RefusalReason::NotStarted => "executor received a request before startup completed"@,
            RefusalReason::NoStream(StreamUse::Process) =>
                "missing Unix service stream for process request"@,
            RefusalReason::NoStream(StreamUse::Sftp) =>
                "missing Unix service stream for SFTP request"@,
            RefusalReason::NoStream(StreamUse::DirectTcpip) =>
                "missing Unix service stream for direct-tcpip request"@,
            RefusalReason::UnknownToken(token) => "unknown remote-forward token "@ + text::decimal(
                token as nat,
            ),
        }),
{
}

/// What went wrong with a request to the executor is told in words that name the
/// kind of the request and carry what the executor said.
pub proof fn law_client_errors_are_told_in_words(e: ClientError, words: String)
    requires
        call_ensures(ClientError::message, (&e,), words),
    ensures
        e is NoHelloAck <==> e@ is NoHelloAck,
        e is NoRequestId <==> e@ is NoRequestId,
        e is Refused <==> e@ is Refused,
        e is Unexpected <==> e@ is Unexpected,
        e is UnknownToken <==> e@ is UnknownToken,
        e is Dropped <==> e@ is Dropped,
        words@ == (match e@ {
            ClientErrorView::NoHelloAck => "executor did not acknowledge startup handshake"@,
            ClientErrorView::NoRequestId => "executor request does not carry a request id"@,
            ClientErrorView::Refused { kind, message } => (match kind {
                RequestKind::Process => "executor failed to start process session: "@,
                RequestKind::Sftp => "executor failed to start SFTP session: "@,
                RequestKind::DirectTcpip => "executor failed to connect outbound TCP stream: "@,
                RequestKind::RemoteForward => "executor failed to bind remote forward: "@,
                RequestKind::CancelRemoteForward =>
                    "executor failed to cancel remote forward: "@,
            }) + message,
            ClientErrorView::Unexpected { kind, shown } => (match kind {
                RequestKind::Process => "unexpected executor response to process request: "@,
                RequestKind::Sftp => "unexpected executor response to SFTP request: "@,
                RequestKind::DirectTcpip =>
                    "unexpected executor response to direct-tcpip request: "@,
                RequestKind::RemoteForward =>
                    "unexpected executor response to remote-forward request: "@,
                RequestKind::CancelRemoteForward =>
                    "unexpected executor response to cancel-remote-forward request: "@,
            }) + shown,
            ClientErrorView::UnknownToken { token } => "unknown remote-forward token "@
                + text::decimal(token as nat),
            ClientErrorView::Dropped => "executor control channel dropped the response"@,
        }),
{
}

/// Requests that wait when the control channel closes are told so; a stream that
/// ended and a message with too many descriptors are told apart.
pub proof fn law_closed_channel_is_told_in_words(
    client: &mut ExecutorClient,
    answer: ExecutorResponse,
    e: ControlError,
    words: &'static str,
)
    requires
        call_ensures(ExecutorClient::on_closed, (client,), answer),
        call_ensures(ControlError::message, (e,), words),
    ensures
        answer is RequestErr,
        answer->RequestErr_message@ == "executor control channel closed"@,
        e is Eof ==> words@ == "executor control channel reached EOF"@,
        e is TooManyFds ==> words@
            == "executor control message carried more than one attached fd"@,
{
}

} // verus!
