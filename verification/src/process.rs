//! Child processes of a session: how they are launched, fed and drained.
use vstd::prelude::*;
use vstd::string::*;

use crate::bytes;
use crate::config::Platform;
use crate::env::EnvTable;

verus! {

/// The size of a terminal, in characters and in pixels.
#[derive(Clone, Copy, Debug, PartialEq, Eq, Structural)]
pub struct SerializablePtySize {
    pub rows: u16,
    pub cols: u16,
    pub pixel_width: u16,
    pub pixel_height: u16,
}

/// A terminal that a session asks for.
#[derive(Debug, PartialEq, Eq)]
pub struct SerializablePtyRequest {
    pub term: String,
    pub size: SerializablePtySize,
}

/// A process that a session asks for.
#[derive(Debug)]
pub struct ProcessRequest {
    pub pty: Option<SerializablePtyRequest>,
    pub env: EnvTable,
    pub command: Option<String>,
}

/// The signals that a session can send.
#[derive(Clone, Copy, Debug, PartialEq, Eq, Structural)]
pub enum ExecutorSignal {
    Abrt,
    Alrm,
    Fpe,
    Hup,
    Ill,
    Int,
    Kill,
    Pipe,
    Quit,
    Segv,
    Term,
    Usr1,
}

/// What a session sends to its process.
#[derive(Debug, PartialEq, Eq)]
pub enum ProcessInput {
    Data(Vec<u8>),
    Signal(ExecutorSignal),
    Resize(SerializablePtySize),
    Eof,
    Close,
}

/// What a process sends to its session.
#[derive(Debug, PartialEq, Eq)]
pub enum ProcessOutput {
    Stdout(Vec<u8>),
    Stderr(Vec<u8>),
    ExitStatus(u32),
}

/// The signals of the SSH protocol.
#[verifier::external_type_specification]
pub struct ExSig(russh::Sig);

/// The signals of the system.
#[verifier::external_type_specification]
pub struct ExSignal(nix::sys::signal::Signal);

/// The signal that a name of the SSH protocol stands for; a name that a client
/// made up stands for none.
pub open spec fn signal_of(signal: russh::Sig) -> Option<ExecutorSignal> {
    match signal {
        russh::Sig::ABRT => Some(ExecutorSignal::Abrt),
        russh::Sig::ALRM => Some(ExecutorSignal::Alrm),
        russh::Sig::FPE => Some(ExecutorSignal::Fpe),
        russh::Sig::HUP => Some(ExecutorSignal::Hup),
        russh::Sig::ILL => Some(ExecutorSignal::Ill),
        russh::Sig::INT => Some(ExecutorSignal::Int),
        russh::Sig::KILL => Some(ExecutorSignal::Kill),
        russh::Sig::PIPE => Some(ExecutorSignal::Pipe),
        russh::Sig::QUIT => Some(ExecutorSignal::Quit),
        russh::Sig::SEGV => Some(ExecutorSignal::Segv),
        russh::Sig::TERM => Some(ExecutorSignal::Term),
        russh::Sig::USR1 => Some(ExecutorSignal::Usr1),
        russh::Sig::Custom(_) => None,
    }
}

pub fn map_signal(signal: &russh::Sig) -> (r: Option<ExecutorSignal>)
    ensures
        r == signal_of(*signal),
{
    match signal {
        russh::Sig::ABRT => Some(ExecutorSignal::Abrt),
        russh::Sig::ALRM => Some(ExecutorSignal::Alrm),
        russh::Sig::FPE => Some(ExecutorSignal::Fpe),
        russh::Sig::HUP => Some(ExecutorSignal::Hup),
        russh::Sig::ILL => Some(ExecutorSignal::Ill),
        russh::Sig::INT => Some(ExecutorSignal::Int),
        russh::Sig::KILL => Some(ExecutorSignal::Kill),
        russh::Sig::PIPE => Some(ExecutorSignal::Pipe),
        russh::Sig::QUIT => Some(ExecutorSignal::Quit),
        russh::Sig::SEGV => Some(ExecutorSignal::Segv),
        russh::Sig::TERM => Some(ExecutorSignal::Term),
        russh::Sig::USR1 => Some(ExecutorSignal::Usr1),
        russh::Sig::Custom(_) => None,
    }
}

impl ExecutorSignal {
    /// The system's signal.
    pub open spec fn native(self) -> nix::sys::signal::Signal {
        match self {
            ExecutorSignal::Abrt => nix::sys::signal::Signal::SIGABRT,
            ExecutorSignal::Alrm => nix::sys::signal::Signal::SIGALRM,
            ExecutorSignal::Fpe => nix::sys::signal::Signal::SIGFPE,
            ExecutorSignal::Hup => nix::sys::signal::Signal::SIGHUP,
            ExecutorSignal::Ill => nix::sys::signal::Signal::SIGILL,
            ExecutorSignal::Int => nix::sys::signal::Signal::SIGINT,
            ExecutorSignal::Kill => nix::sys::signal::Signal::SIGKILL,
            ExecutorSignal::Pipe => nix::sys::signal::Signal::SIGPIPE,
            ExecutorSignal::Quit => nix::sys::signal::Signal::SIGQUIT,
            ExecutorSignal::Segv => nix::sys::signal::Signal::SIGSEGV,
            ExecutorSignal::Term => nix::sys::signal::Signal::SIGTERM,
            ExecutorSignal::Usr1 => nix::sys::signal::Signal::SIGUSR1,
        }
    }

    pub fn to_signal(self) -> (r: nix::sys::signal::Signal)
        ensures
            r == self.native(),
    {
        match self {
            ExecutorSignal::Abrt => nix::sys::signal::Signal::SIGABRT,
            ExecutorSignal::Alrm => nix::sys::signal::Signal::SIGALRM,
            ExecutorSignal::Fpe => nix::sys::signal::Signal::SIGFPE,
            ExecutorSignal::Hup => nix::sys::signal::Signal::SIGHUP,
            ExecutorSignal::Ill => nix::sys::signal::Signal::SIGILL,
            ExecutorSignal::Int => nix::sys::signal::Signal::SIGINT,
            ExecutorSignal::Kill => nix::sys::signal::Signal::SIGKILL,
            ExecutorSignal::Pipe => nix::sys::signal::Signal::SIGPIPE,
            ExecutorSignal::Quit => nix::sys::signal::Signal::SIGQUIT,
            ExecutorSignal::Segv => nix::sys::signal::Signal::SIGSEGV,
            ExecutorSignal::Term => nix::sys::signal::Signal::SIGTERM,
            ExecutorSignal::Usr1 => nix::sys::signal::Signal::SIGUSR1,
        }
    }
}

/// Different names of the SSH protocol stand for different signals.
pub proof fn law_signals_are_kept_apart(a: russh::Sig, b: russh::Sig)
    requires
        signal_of(a) is Some,
        signal_of(a) == signal_of(b),
    ensures
        a == b,
{
}

/// A dimension as a terminal takes it: at least one, and no more than its range
/// holds.
pub open spec fn clamped(value: u32) -> u16 {
    if value == 0 {
        1
    } else if value > u16::MAX {
        u16::MAX
    } else {
        value as u16
    }
}

pub fn clamp_dimension(value: u32) -> (r: u16)
    ensures
        r == clamped(value),
{
    if value == 0 {
        1
    } else if value > u16::MAX as u32 {
        u16::MAX
    } else {
        value as u16
    }
}

/// The size of a terminal that a client asks for.
pub open spec fn size_of(
    col_width: u32,
    row_height: u32,
    pix_width: u32,
    pix_height: u32,
) -> SerializablePtySize {
    SerializablePtySize {
        rows: clamped(row_height),
        cols: clamped(col_width),
        pixel_width: clamped(pix_width),
        pixel_height: clamped(pix_height),
    }
}

pub fn pty_size(col_width: u32, row_height: u32, pix_width: u32, pix_height: u32) -> (r:
    SerializablePtySize)
    ensures
        r == size_of(col_width, row_height, pix_width, pix_height),
{
    SerializablePtySize {
        rows: clamp_dimension(row_height),
        cols: clamp_dimension(col_width),
        pixel_width: clamp_dimension(pix_width),
        pixel_height: clamp_dimension(pix_height),
    }
}

/// How a child process is to be started.
#[derive(Debug)]
pub struct LaunchPlan {
    pub program: String,
    pub args: Vec<String>,
    pub cwd: String,
    pub env: EnvTable,
}

/// What a `LaunchPlan` says.
pub struct LaunchView {
    pub program: Seq<char>,
    pub args: Seq<Seq<char>>,
    pub cwd: Seq<char>,
    pub env: Map<Seq<char>, Seq<char>>,
}

/// The texts of a list.
pub open spec fn strings(list: Seq<String>) -> Seq<Seq<char>> {
    list.map_values(|s: String| s@)
}

impl View for LaunchPlan {
    type V = LaunchView;

    open spec fn view(&self) -> LaunchView {
        LaunchView {
            program: self.program@,
            args: strings(self.args@),
            cwd: self.cwd@,
            env: self.env@,
        }
    }
}

/// The arguments of a shell: none for an interactive one, else the flag after
/// which it takes a command, and the command.
pub open spec fn shell_args(flag: Seq<char>, command: Option<String>) -> Seq<Seq<char>> {
    match command {
        Some(command) => seq![flag, command@],
        None => Seq::empty(),
    }
}

/// Plans the start of a shell.
pub fn launch_plan(
    shell: &str,
    home_dir: &str,
    env: EnvTable,
    flag: &str,
    command: Option<String>,
) -> (r: LaunchPlan)
    ensures
        r@ == (LaunchView {
            program: shell@,
            args: shell_args(flag@, command),
            cwd: home_dir@,
            env: env@,
        }),
{
    let mut args: Vec<String> = Vec::new();
    let ghost c = command;
    match command {
        Some(command) => {
            args.push(String::from_str(flag));
            args.push(command);
        },
        None => {},
    }
    assert(strings(args@) =~= shell_args(flag@, c));
    LaunchPlan {
        program: String::from_str(shell),
        args,
        cwd: String::from_str(home_dir),
        env,
    }
}

/// How a session's process is connected: a terminal or three pipes, to a
/// channel of the connection or to a stream from the listening process.
#[derive(Clone, Copy, Debug, PartialEq, Eq, Structural)]
pub enum PumpKind {
    ChannelPty,
    ChannelPiped,
    ServicePty,
    ServicePiped,
}

/// Where the draining of a process stands.
pub struct PumpView {
    pub kind: PumpKind,
    pub platform: Platform,
    /// The exit status, once the process has ended.
    pub exit: Option<u32>,
    /// Whether all output has come out.
    pub drained: bool,
    /// Whether the session is gone.
    pub broken: bool,
}

impl PumpView {
    /// Whether there is nothing left to wait for. The output of a Windows
    /// pseudo terminal can stay open behind the end of its process.
    pub open spec fn finished(self) -> bool {
        self.broken || (self.exit is Some && (self.drained || (self.kind == PumpKind::ServicePty
            && self.platform == Platform::Windows)))
    }
}

/// The status that stands for a process whose own status is not known.
pub const UNKNOWN_EXIT: u32 = 255;

/// Passes the output of a process on and keeps its exit status for the end.
#[derive(Debug)]
pub struct OutputPump {
    kind: PumpKind,
    platform: Platform,
    child_exit: Option<u32>,
    output_closed: bool,
    broken: bool,
}

impl View for OutputPump {
    type V = PumpView;

    closed spec fn view(&self) -> PumpView {
        PumpView {
            kind: self.kind,
            platform: self.platform,
            exit: self.child_exit,
            drained: self.output_closed,
            broken: self.broken,
        }
    }
}

impl OutputPump {
    pub fn new(kind: PumpKind, platform: Platform) -> (r: Self)
        ensures
            r@ == (PumpView { kind, platform, exit: None, drained: false, broken: false }),
    {
        OutputPump { kind, platform, child_exit: None, output_closed: false, broken: false }
    }

    pub fn finished(&self) -> (r: bool)
        ensures
            r == self@.finished(),
    {
        self.broken || (self.child_exit.is_some() && (self.output_closed || (self.kind
            == PumpKind::ServicePty && self.platform == Platform::Windows)))
    }

    /// Whether output can still come.
    pub fn awaits_output(&self) -> (r: bool)
        ensures
            r == !self@.drained,
    {
        !self.output_closed
    }

    /// Whether the end of the process is still to come.
    pub fn awaits_exit(&self) -> (r: bool)
        ensures
            r == (self@.exit is None),
    {
        self.child_exit.is_none()
    }

    /// Takes the next output, or that there is no more; what comes back is to
    /// be sent to the session.
    pub fn on_output(&mut self, output: Option<ProcessOutput>) -> (r: Option<ProcessOutput>)
        ensures
            r == output,
            final(self)@ == (PumpView {
                drained: old(self)@.drained || output is None,
                ..old(self)@
            }),
    {
        if output.is_none() {
            self.output_closed = true;
        }
        output
    }

    /// Something could not be sent: the session is gone. Tells whether the
    /// process has to be killed for it; a terminal's process learns of it from
    /// its terminal.
    pub fn on_send_failed(&mut self) -> (r: bool)
        ensures
            final(self)@ == (PumpView { broken: true, ..old(self)@ }),
            r == (old(self)@.kind == PumpKind::ChannelPiped || old(self)@.kind
                == PumpKind::ServicePiped),
    {
        self.broken = true;
        match self.kind {
            PumpKind::ChannelPiped => true,
            PumpKind::ServicePiped => true,
            _ => false,
        }
    }

    /// The process has ended, with this status if it is known. Tells whether
    /// its terminal is to be closed and its input to be given up.
    pub fn on_exit(&mut self, code: Option<u32>) -> (r: bool)
        ensures
            final(self)@ == (PumpView {
                exit: Some(
                    match code {
                        Some(code) => code,
                        None => UNKNOWN_EXIT,
                    },
                ),
                ..old(self)@
            }),
            r == (old(self)@.kind == PumpKind::ServicePty),
    {
        self.child_exit = Some(
            match code {
                Some(code) => code,
                None => UNKNOWN_EXIT,
            },
        );
        match self.kind {
            PumpKind::ServicePty => true,
            _ => false,
        }
    }

    /// What is sent last: the exit status, if the process has ended.
    pub fn last_message(&self) -> (r: Option<ProcessOutput>)
        ensures
            match self@.exit {
                Some(code) => r == Some(ProcessOutput::ExitStatus(code)),
                None => r is None,
            },
    {
        match self.child_exit {
            Some(code) => Some(ProcessOutput::ExitStatus(code)),
            None => None,
        }
    }
}

/// The exit status comes last: unless the session is gone, a process is only
/// done with once it has ended, and on Unix once all of its output is out.
pub proof fn law_exit_status_comes_last(p: PumpView)
    requires
        p.finished(),
        !p.broken,
    ensures
        p.exit is Some,
        p.platform == Platform::Unix ==> p.drained,
{
}

/// A process that has ended and is drained is done with, whichever came first.
pub proof fn law_ended_and_drained_is_done(p: PumpView, code: u32)
    ensures
        (PumpView { exit: Some(code), drained: true, ..p }).finished(),
{
}

/// A message from the client on a session's channel.
#[derive(Debug)]
pub enum ChannelInput {
    Data(Vec<u8>),
    Signal(russh::Sig),
    WindowChange { col_width: u32, row_height: u32, pix_width: u32, pix_height: u32 },
    Eof,
    Close,
    /// One that a running process has no use for.
    Other,
}

/// An order to the keeper of a terminal.
#[derive(Debug, PartialEq, Eq)]
pub enum PtyControl {
    Write(Vec<u8>),
    Resize(SerializablePtySize),
    Signal(ExecutorSignal),
    Eof,
    Close,
}

/// What the client's message means to a process: nothing if it names a signal
/// that does not exist or is of no use.
pub open spec fn input_of(input: ChannelInput) -> Option<ProcessInput> {
    match input {
        ChannelInput::Data(data) => Some(ProcessInput::Data(data)),
        ChannelInput::Signal(signal) => match signal_of(signal) {
            Some(signal) => Some(ProcessInput::Signal(signal)),
            None => None,
        },
        ChannelInput::WindowChange { col_width, row_height, pix_width, pix_height } => Some(
            ProcessInput::Resize(size_of(col_width, row_height, pix_width, pix_height)),
        ),
        ChannelInput::Eof => Some(ProcessInput::Eof),
        ChannelInput::Close => Some(ProcessInput::Close),
        ChannelInput::Other => None,
    }
}

/// Reads the client's message as one to a process.
pub fn channel_input(input: ChannelInput) -> (r: Option<ProcessInput>)
    ensures
        r == input_of(input),
{
    match input {
        ChannelInput::Data(data) => Some(ProcessInput::Data(data)),
        ChannelInput::Signal(signal) => match map_signal(&signal) {
            Some(signal) => Some(ProcessInput::Signal(signal)),
            None => None,
        },
        ChannelInput::WindowChange { col_width, row_height, pix_width, pix_height } => Some(
            ProcessInput::Resize(pty_size(col_width, row_height, pix_width, pix_height)),
        ),
        ChannelInput::Eof => Some(ProcessInput::Eof),
        ChannelInput::Close => Some(ProcessInput::Close),
        ChannelInput::Other => None,
    }
}

/// The order that a message to a terminal's process becomes, and whether it is
/// the last one.
pub fn pty_control(input: ProcessInput) -> (r: (PtyControl, bool))
    ensures
        r.0 == (match input {
            ProcessInput::Data(data) => PtyControl::Write(data),
            ProcessInput::Signal(signal) => PtyControl::Signal(signal),
            ProcessInput::Resize(size) => PtyControl::Resize(size),
            ProcessInput::Eof => PtyControl::Eof,
            ProcessInput::Close => PtyControl::Close,
        }),
        r.1 == (input is Close),
{
    match input {
        ProcessInput::Data(data) => (PtyControl::Write(data), false),
        ProcessInput::Signal(signal) => (PtyControl::Signal(signal), false),
        ProcessInput::Resize(size) => (PtyControl::Resize(size), false),
        ProcessInput::Eof => (PtyControl::Eof, false),
        ProcessInput::Close => (PtyControl::Close, true),
    }
}

/// What is to be done with a process that is fed through a pipe.
#[derive(Debug, PartialEq, Eq)]
pub enum PipedStep {
    Write(Vec<u8>),
    Signal(ExecutorSignal),
    CloseStdin,
    /// Kill the process; nothing follows.
    Kill,
    Nothing,
}

/// What a message to a process behind a pipe leads to. Windows has no signals,
/// and a pipe no size.
pub fn piped_step(input: ProcessInput, platform: Platform) -> (r: PipedStep)
    ensures
        r == (match input {
            ProcessInput::Data(data) => PipedStep::Write(data),
            ProcessInput::Signal(signal) => if platform == Platform::Unix {
                PipedStep::Signal(signal)
            } else {
                PipedStep::Nothing
            },
            ProcessInput::Eof => PipedStep::CloseStdin,
            ProcessInput::Close => PipedStep::Kill,
            ProcessInput::Resize(_) => PipedStep::Nothing,
        }),
{
    match input {
        ProcessInput::Data(data) => PipedStep::Write(data),
        ProcessInput::Signal(signal) => {
            if platform == Platform::Unix {
                PipedStep::Signal(signal)
            } else {
                PipedStep::Nothing
            }
        },
        ProcessInput::Eof => PipedStep::CloseStdin,
        ProcessInput::Close => PipedStep::Kill,
        ProcessInput::Resize(_) => PipedStep::Nothing,
    }
}

/// What the keeper of a terminal is to do.
#[derive(Debug, PartialEq, Eq)]
pub enum PtyStep {
    Write(Vec<u8>),
    Resize(SerializablePtySize),
    /// Signal the process group that the terminal leads.
    SignalGroup(i32, ExecutorSignal),
    /// Let go of the terminal's input.
    DropWriter,
    /// Let go of the terminal's input and kill the process; nothing follows.
    Kill,
    Nothing,
}

/// The keeper of a terminal.
#[derive(Debug)]
pub struct PtyKeeper {
    platform: Platform,
    process_group: Option<i32>,
    writer_open: bool,
    done: bool,
}

/// Where the keeper of a terminal stands.
pub struct KeeperView {
    pub platform: Platform,
    pub process_group: Option<i32>,
    /// Whether the terminal still takes input.
    pub writer_open: bool,
    pub done: bool,
}

impl View for PtyKeeper {
    type V = KeeperView;

    closed spec fn view(&self) -> KeeperView {
        KeeperView {
            platform: self.platform,
            process_group: self.process_group,
            writer_open: self.writer_open,
            done: self.done,
        }
    }
}

impl KeeperView {
    /// What an order leads to, and where the keeper stands after it.
    pub open spec fn ordered(self, order: PtyControl) -> (KeeperView, PtyStep) {
        if self.done {
            (self, PtyStep::Nothing)
        } else {
            match order {
                PtyControl::Write(data) => (
                    self,
                    if self.writer_open {
                        PtyStep::Write(data)
                    } else {
                        PtyStep::Nothing
                    },
                ),
                PtyControl::Resize(size) => (self, PtyStep::Resize(size)),
                PtyControl::Signal(signal) => (
                    self,
                    match self.process_group {
                        Some(group) => if self.platform == Platform::Unix {
                            PtyStep::SignalGroup(group, signal)
                        } else {
                            PtyStep::Nothing
                        },
                        None => PtyStep::Nothing,
                    },
                ),
                PtyControl::Eof => (
                    KeeperView { writer_open: false, ..self },
                    PtyStep::DropWriter,
                ),
                PtyControl::Close => (
                    KeeperView { writer_open: false, done: true, ..self },
                    PtyStep::Kill,
                ),
            }
        }
    }
}

impl PtyKeeper {
    pub fn new(platform: Platform, process_group: Option<i32>) -> (r: Self)
        ensures
            r@ == (KeeperView { platform, process_group, writer_open: true, done: false }),
    {
        PtyKeeper { platform, process_group, writer_open: true, done: false }
    }

    /// Takes an order.
    pub fn order(&mut self, order: PtyControl) -> (r: PtyStep)
        ensures
            (final(self)@, r) == old(self)@.ordered(order),
    {
        if self.done {
            return PtyStep::Nothing;
        }
        match order {
            PtyControl::Write(data) => {
                if self.writer_open {
                    PtyStep::Write(data)
                } else {
                    PtyStep::Nothing
                }
            },
            PtyControl::Resize(size) => PtyStep::Resize(size),
            PtyControl::Signal(signal) => match self.process_group {
                Some(group) => {
                    if self.platform == Platform::Unix {
                        PtyStep::SignalGroup(group, signal)
                    } else {
                        PtyStep::Nothing
                    }
                },
                None => PtyStep::Nothing,
            },
            PtyControl::Eof => {
                self.writer_open = false;
                PtyStep::DropWriter
            },
            PtyControl::Close => {
                self.writer_open = false;
                self.done = true;
                PtyStep::Kill
            },
        }
    }

    /// A write failed: the terminal is of no use any more.
    pub fn write_failed(&mut self)
        ensures
            final(self)@ == (KeeperView { done: true, ..old(self)@ }),
    {
        self.done = true;
    }

    pub fn done(&self) -> (r: bool)
        ensures
            r == self@.done,
    {
        self.done
    }
}

/// Once the end of the input has been ordered nothing is written any more,
/// whatever is ordered in between.
pub proof fn law_nothing_is_written_behind_the_end(
    k: KeeperView,
    end: PtyControl,
    order: PtyControl,
    data: Vec<u8>,
)
    requires
        !k.done,
        end is Eof || end is Close,
    ensures
        !k.ordered(end).0.writer_open,
        !k.ordered(end).0.ordered(order).0.writer_open,
        k.ordered(end).0.ordered(PtyControl::Write(data)).1 is Nothing,
{
}

/// What came of reading from a process.
#[derive(Clone, Copy, Debug, PartialEq, Eq, Structural)]
pub enum ReadOutcome {
    /// So many bytes; none at the end.
    Read(usize),
    Interrupted,
    Failed,
}

/// Which of its streams a process wrote to.
#[derive(Clone, Copy, Debug, PartialEq, Eq, Structural)]
pub enum ProcessStream {
    Stdout,
    Stderr,
}

/// What a reading from a process leads to.
#[derive(Debug, PartialEq, Eq)]
pub enum ReadStep {
    /// Pass this on and read again.
    Pass(ProcessOutput),
    /// Read again.
    Again,
    /// Stop reading.
    Stop,
}

/// The bytes of an output that is no exit status.
pub open spec fn output_bytes(output: ProcessOutput) -> Seq<u8> {
    match output {
        ProcessOutput::Stdout(data) => data@,
        ProcessOutput::Stderr(data) => data@,
        ProcessOutput::ExitStatus(_) => Seq::empty(),
    }
}

/// Decides what to do with a buffer that was read into. Only a terminal's
/// reading starts over when it is interrupted.
pub fn read_step(buffer: &Vec<u8>, outcome: ReadOutcome, which: ProcessStream, is_pty: bool) -> (r:
    ReadStep)
    requires
        outcome matches ReadOutcome::Read(n) ==> n <= buffer@.len(),
    ensures
        match outcome {
            ReadOutcome::Read(n) => if n == 0 {
                r is Stop
            } else {
                r matches ReadStep::Pass(output) && output_bytes(output) == buffer@.take(n as int)
                    && (match which {
                    ProcessStream::Stdout => output is Stdout,
                    ProcessStream::Stderr => output is Stderr,
                })
            },
            ReadOutcome::Interrupted => if is_pty {
                r is Again
            } else {
                r is Stop
            },
            ReadOutcome::Failed => r is Stop,
        },
{
    match outcome {
        ReadOutcome::Read(n) => {
            if n == 0 {
                return ReadStep::Stop;
            }
            let chunk = bytes::first_bytes(buffer, n);
            match which {
                ProcessStream::Stdout => ReadStep::Pass(ProcessOutput::Stdout(chunk)),
                ProcessStream::Stderr => ReadStep::Pass(ProcessOutput::Stderr(chunk)),
            }
        },
        ReadOutcome::Interrupted => {
            if is_pty {
                ReadStep::Again
            } else {
                ReadStep::Stop
            }
        },
        ReadOutcome::Failed => ReadStep::Stop,
    }
}

/// The status that is reported for a process: its own, or the signal that ended
/// it behind 128, or 255.
pub open spec fn reported_status(code: Option<i32>, signal: Option<i32>) -> u32 {
    match code {
        Some(code) => code as u32,
        None => match signal {
            Some(signal) => (128 + signal) as u32,
            None => UNKNOWN_EXIT,
        },
    }
}

/// Reports how a process ended: its exit code, or on Unix the signal.
pub fn exit_status_code(code: Option<i32>, signal: Option<i32>) -> (r: u32)
    requires
        signal matches Some(s) ==> s >= 0,
    ensures
        r == reported_status(code, signal),
{
    match code {
        Some(code) => #[verifier::truncate]
        (code as u32),
        None => match signal {
            Some(signal) => 128u32 + signal as u32,
            None => UNKNOWN_EXIT,
        },
    }
}

/// Why a process could not be signalled.
#[derive(Clone, Copy, Debug, PartialEq, Eq, Structural)]
pub enum SignalError {
    PidTooLarge,
    ChildNotSignalled,
    GroupNotSignalled,
}

impl SignalError {
    pub open spec fn text(self) -> Seq<char> {
        match self {
            SignalError::PidTooLarge => "child pid too large"@,
            SignalError::ChildNotSignalled => "failed to signal child"@,
            SignalError::GroupNotSignalled => "failed to signal child process group"@,
        }
    }

    /// The error in words.
    pub fn message(self) -> (r: &'static str)
        ensures
            r@ == self.text(),
    {
        match self {
            SignalError::PidTooLarge => "child pid too large",
            SignalError::ChildNotSignalled => "failed to signal child",
            SignalError::GroupNotSignalled => "failed to signal child process group",
        }
    }
}

/// Signals a process; `kill` asks the system and tells whether it did.
pub fn send_signal_to_pid<F: FnOnce(i32, nix::sys::signal::Signal) -> bool>(
    pid: u32,
    signal: nix::sys::signal::Signal,
    kill: F,
) -> (r: Result<(), SignalError>)
    requires
        pid <= i32::MAX ==> kill.requires((pid as i32, signal)),
    ensures
        pid > i32::MAX ==> r == Err::<(), SignalError>(SignalError::PidTooLarge),
        pid <= i32::MAX ==> match r {
            Ok(_) => kill.ensures((pid as i32, signal), true),
            Err(e) => e == SignalError::ChildNotSignalled && kill.ensures(
                (pid as i32, signal),
                false,
            ),
        },
{
    if pid > i32::MAX as u32 {
        return Err(SignalError::PidTooLarge);
    }
    if kill(pid as i32, signal) {
        Ok(())
    } else {
        Err(SignalError::ChildNotSignalled)
    }
}

/// Signals a process group; `killpg` asks the system and tells whether it did.
pub fn send_signal_to_process_group<F: FnOnce(i32, nix::sys::signal::Signal) -> bool>(
    group: i32,
    signal: nix::sys::signal::Signal,
    killpg: F,
) -> (r: Result<(), SignalError>)
    requires
        killpg.requires((group, signal)),
    ensures
        match r {
            Ok(_) => killpg.ensures((group, signal), true),
            Err(e) => e == SignalError::GroupNotSignalled && killpg.ensures(
                (group, signal),
                false,
            ),
        },
{
    if killpg(group, signal) {
        Ok(())
    } else {
        Err(SignalError::GroupNotSignalled)
    }
}

/// A signal that a client names is the system's signal of that name.
pub proof fn law_signals_keep_their_names(name: russh::Sig)
    ensures
        signal_of(name) is None <==> name is Custom,
        signal_of(name) matches Some(signal) ==> match name {
            russh::Sig::ABRT => signal.native() is SIGABRT,
            russh::Sig::ALRM => signal.native() is SIGALRM,
            russh::Sig::FPE => signal.native() is SIGFPE,
            russh::Sig::HUP => signal.native() is SIGHUP,
            russh::Sig::ILL => signal.native() is SIGILL,
            russh::Sig::INT => signal.native() is SIGINT,
            russh::Sig::KILL => signal.native() is SIGKILL,
            russh::Sig::PIPE => signal.native() is SIGPIPE,
            russh::Sig::QUIT => signal.native() is SIGQUIT,
            russh::Sig::SEGV => signal.native() is SIGSEGV,
            russh::Sig::TERM => signal.native() is SIGTERM,
            russh::Sig::USR1 => signal.native() is SIGUSR1,
            russh::Sig::Custom(_) => false,
        },
{
}

/// The terminal has the size that the client asks for: each dimension is the
/// one asked for where a terminal can have it, at least one, and the largest
/// there is beyond that; none depends on another.
pub proof fn law_terminal_has_the_size_asked_for(
    col_width: u32,
    row_height: u32,
    pix_width: u32,
    pix_height: u32,
)
    ensures
        ({
            let size = size_of(col_width, row_height, pix_width, pix_height);
            &&& 1 <= row_height <= 65535 ==> size.rows == row_height
            &&& 1 <= col_width <= 65535 ==> size.cols == col_width
            &&& 1 <= pix_width <= 65535 ==> size.pixel_width == pix_width
            &&& 1 <= pix_height <= 65535 ==> size.pixel_height == pix_height
            &&& row_height > 65535 ==> size.rows == 65535
            &&& col_width > 65535 ==> size.cols == 65535
            &&& pix_width > 65535 ==> size.pixel_width == 65535
            &&& pix_height > 65535 ==> size.pixel_height == 65535
            &&& row_height == 0 ==> size.rows == 1
            &&& col_width == 0 ==> size.cols == 1
            &&& pix_width == 0 ==> size.pixel_width == 1
            &&& pix_height == 0 ==> size.pixel_height == 1
        }),
{
}

/// What a client sends to a process behind a pipe gets there as what it is:
/// its bytes are written, the end of its input closes the pipe and the end of
/// the channel kills the process. A signal is passed on where the system has
/// signals; a made-up one, a new size and anything else change nothing.
pub proof fn law_pipe_gets_what_the_client_sends(
    message: ChannelInput,
    input: Option<ProcessInput>,
    platform: Platform,
    step: PipedStep,
)
    requires
        call_ensures(channel_input, (message,), input),
        input matches Some(input) ==> call_ensures(piped_step, (input, platform), step),
    ensures
        match message {
            ChannelInput::Data(data) => input is Some && step == PipedStep::Write(data),
            ChannelInput::Eof => input is Some && step is CloseStdin,
            ChannelInput::Close => input is Some && step is Kill,
            ChannelInput::Signal(name) => if name is Custom {
                input is None
            } else {
                input is Some && if platform is Unix {
                    step == PipedStep::Signal(signal_of(name)->0)
                } else {
                    step is Nothing
                }
            },
            ChannelInput::WindowChange { .. } => input is Some && step is Nothing,
            ChannelInput::Other => input is None,
        },
{
}

/// What a client sends to a process behind a terminal gets there as what it is,
/// while the terminal takes input: its bytes are written, a new size is set, a
/// signal goes to the terminal's process group, the end of its input lets go of
/// the terminal and the end of the channel kills the process.
pub proof fn law_terminal_gets_what_the_client_sends(
    message: ChannelInput,
    input: Option<ProcessInput>,
    order: PtyControl,
    last: bool,
    k: KeeperView,
)
    requires
        call_ensures(channel_input, (message,), input),
        input matches Some(input) ==> call_ensures(pty_control, (input,), (order, last)),
        k.writer_open,
        !k.done,
    ensures
        ({
            let (after, step) = k.ordered(order);
            match message {
                ChannelInput::Data(data) => input is Some && step == PtyStep::Write(data)
                    && after == k && !last,
                ChannelInput::Eof => input is Some && step is DropWriter && !after.writer_open
                    && !after.done && !last,
                ChannelInput::Close => input is Some && step is Kill && after.done && last,
                ChannelInput::Signal(name) => if name is Custom {
                    input is None
                } else {
                    input is Some && after == k && !last && (k.platform is Unix
                        && k.process_group is Some ==> step == PtyStep::SignalGroup(
                        k.process_group->0,
                        signal_of(name)->0,
                    )) && (k.platform is Windows || k.process_group is None ==> step is Nothing)
                },
                ChannelInput::WindowChange { col_width, row_height, pix_width, pix_height } =>
                    input is Some && after == k && !last && step == PtyStep::Resize(
                        size_of(col_width, row_height, pix_width, pix_height),
                    ),
                ChannelInput::Other => input is None,
            }
        }),
{
}

/// An order changes nothing about the terminal but whether it takes input and
/// whether it is done with; a terminal that is done with takes no order, and one
/// that was only told of the end of the input still takes signals and sizes.
pub proof fn law_orders_only_end_things(k: KeeperView, order: PtyControl)
    ensures
        ({
            let (after, step) = k.ordered(order);
            &&& after.platform == k.platform
            &&& after.process_group == k.process_group
            &&& after.writer_open ==> k.writer_open
            &&& k.done ==> after == k && step is Nothing
            &&& !k.done && order is Resize ==> step == PtyStep::Resize(order->Resize_0)
            &&& !k.done && order is Close ==> step is Kill && after.done
            &&& after.done ==> k.done || order is Close
        }),
{
}

/// A terminal starts open, with the group that leads it.
pub proof fn law_terminal_starts_open(platform: Platform, group: Option<i32>, keeper: PtyKeeper)
    requires
        call_ensures(PtyKeeper::new, (platform, group), keeper),
    ensures
        keeper@.writer_open,
        !keeper@.done,
        keeper@.process_group == group,
        keeper@.platform == platform,
{
}

/// A write that failed ends the terminal: no order does anything any more.
pub proof fn law_failed_write_ends_the_terminal(keeper: &mut PtyKeeper, order: PtyControl)
    requires
        call_ensures(PtyKeeper::write_failed, (keeper,), ()),
    ensures
        final(keeper)@.done,
        final(keeper)@.ordered(order).1 is Nothing,
        final(keeper)@.process_group == old(keeper)@.process_group,
{
}

/// What a process writes is passed on as what it is: exactly the bytes that
/// were read, to the stream that they came from. The end and a failure stop the
/// reading; only a terminal is read again when it was interrupted.
pub proof fn law_output_is_passed_on(
    buffer: &Vec<u8>,
    outcome: ReadOutcome,
    which: ProcessStream,
    is_pty: bool,
    step: ReadStep,
)
    requires
        outcome matches ReadOutcome::Read(n) ==> n <= buffer@.len(),
        call_ensures(read_step, (buffer, outcome, which, is_pty), step),
    ensures
        outcome matches ReadOutcome::Read(n) ==> if n == 0 {
            step is Stop
        } else if which is Stdout {
            step matches ReadStep::Pass(ProcessOutput::Stdout(data)) && data@ == buffer@.subrange(
                0,
                n as int,
            )
        } else {
            step matches ReadStep::Pass(ProcessOutput::Stderr(data)) && data@ == buffer@.subrange(
                0,
                n as int,
            )
        },
        outcome is Interrupted ==> (step is Again <==> is_pty) && (step is Stop <==> !is_pty),
        outcome is Failed ==> step is Stop,
{
}

/// The status of a process is its exit code; a process that a signal ended has
/// 128 more than the signal's number, and one of which nothing is known 255.
pub proof fn law_status_tells_how_a_process_ended(
    code: Option<i32>,
    signal: Option<i32>,
    status: u32,
)
    requires
        signal matches Some(s) ==> s >= 0,
        call_ensures(exit_status_code, (code, signal), status),
    ensures
        code is Some && code->0 >= 0 ==> status == code->0,
        code is Some && code->0 < 0 ==> status == code->0 + 0x1_0000_0000,
        code is None && signal is Some ==> status - 128 == signal->0,
        code is None && signal is None ==> status == 255,
{
    if code is Some {
        let c = code->0;
        assert(c < 0 ==> c as u32 == c + 0x1_0000_0000) by (bit_vector);
    }
}

/// The exit status that is sent last is the one that the process ended with;
/// the end of the process changes nothing else, and closes the terminal only of
/// a process that another process is served by.
pub proof fn law_exit_status_is_kept(pump: &mut OutputPump, code: Option<u32>, closes: bool)
    requires
        call_ensures(OutputPump::on_exit, (pump, code), closes),
    ensures
        final(pump)@.exit == Some(
            if code is Some {
                code->0
            } else {
                255
            },
        ),
        final(pump)@.drained == old(pump)@.drained,
        final(pump)@.broken == old(pump)@.broken,
        final(pump)@.kind == old(pump)@.kind,
        closes <==> old(pump)@.kind is ServicePty,
{
}

/// The last message of a process that has ended is its exit status; of one that
/// has not there is none.
pub proof fn law_last_message_is_the_exit_status(
    pump: &OutputPump,
    last: Option<ProcessOutput>,
)
    requires
        call_ensures(OutputPump::last_message, (pump,), last),
    ensures
        pump@.exit matches Some(code) ==> last == Some(ProcessOutput::ExitStatus(code)),
        pump@.exit is None ==> last is None,
{
}

/// Output is handed on unchanged, and only its end drains the process.
pub proof fn law_output_is_handed_on(
    pump: &mut OutputPump,
    output: Option<ProcessOutput>,
    sent: Option<ProcessOutput>,
)
    requires
        call_ensures(OutputPump::on_output, (pump, output), sent),
    ensures
        sent == output,
        output is None ==> final(pump)@.drained,
        output is Some ==> final(pump)@ == old(pump)@,
        final(pump)@.exit == old(pump)@.exit,
        final(pump)@.broken == old(pump)@.broken,
{
}

/// A session that is gone ends the draining, and a process behind pipes, which
/// would not learn of it, is killed.
pub proof fn law_lost_session_ends_the_draining(pump: &mut OutputPump, kills: bool)
    requires
        call_ensures(OutputPump::on_send_failed, (pump,), kills),
    ensures
        final(pump)@.finished(),
        kills <==> (old(pump)@.kind is ChannelPiped || old(pump)@.kind is ServicePiped),
        final(pump)@.exit == old(pump)@.exit,
{
}

/// Nothing is over while the process runs or, but for a Windows terminal, while
/// it has output left; what is over is waited for no longer.
pub proof fn law_draining_waits_for_what_is_left(
    pump: &OutputPump,
    finished: bool,
    output: bool,
    exit: bool,
)
    requires
        call_ensures(OutputPump::finished, (pump,), finished),
        call_ensures(OutputPump::awaits_output, (pump,), output),
        call_ensures(OutputPump::awaits_exit, (pump,), exit),
        !pump@.broken,
    ensures
        exit ==> !finished,
        output && (pump@.platform is Unix || !(pump@.kind is ServicePty)) ==> !finished,
        !exit && !output ==> finished,
        exit <==> pump@.exit is None,
        output <==> !pump@.drained,
{
}

/// A command runs in the shell behind the flag, in the home directory and with
/// the environment that was asked for; a shell without a command has no
/// arguments.
pub proof fn law_command_runs_in_the_shell(
    shell: &str,
    home_dir: &str,
    env: EnvTable,
    flag: &str,
    command: Option<String>,
    plan: LaunchPlan,
)
    requires
        call_ensures(launch_plan, (shell, home_dir, env, flag, command), plan),
    ensures
        plan.program@ == shell@,
        plan.cwd@ == home_dir@,
        plan.env@ == env@,
        command is None ==> plan.args@.len() == 0,
        command matches Some(command) ==> plan.args@.len() == 2 && plan.args@[0]@ == flag@
            && plan.args@[1]@ == command@,
{
    assert(plan@.args == strings(plan.args@));
    assert(plan.args@.len() == plan@.args.len());
    if command is Some {
        assert(plan@.args[0] == plan.args@[0]@);
        assert(plan@.args[1] == plan.args@[1]@);
    }
}

/// A signal that a client names reaches the system under the same name.
pub proof fn law_signals_reach_the_system(
    name: &russh::Sig,
    mapped: Option<ExecutorSignal>,
    signal: nix::sys::signal::Signal,
)
    requires
        call_ensures(map_signal, (name,), mapped),
        mapped matches Some(m) ==> call_ensures(ExecutorSignal::to_signal, (m,), signal),
    ensures
        mapped is None <==> *name is Custom,
        *name is ABRT ==> signal == nix::sys::signal::Signal::SIGABRT,
        *name is ALRM ==> signal == nix::sys::signal::Signal::SIGALRM,
        *name is FPE ==> signal == nix::sys::signal::Signal::SIGFPE,
        *name is HUP ==> signal == nix::sys::signal::Signal::SIGHUP,
        *name is ILL ==> signal == nix::sys::signal::Signal::SIGILL,
        *name is INT ==> signal == nix::sys::signal::Signal::SIGINT,
        *name is KILL ==> signal == nix::sys::signal::Signal::SIGKILL,
        *name is PIPE ==> signal == nix::sys::signal::Signal::SIGPIPE,
        *name is QUIT ==> signal == nix::sys::signal::Signal::SIGQUIT,
        *name is SEGV ==> signal == nix::sys::signal::Signal::SIGSEGV,
        *name is TERM ==> signal == nix::sys::signal::Signal::SIGTERM,
        *name is USR1 ==> signal == nix::sys::signal::Signal::SIGUSR1,
{
}

/// A terminal gets the rows, the columns and the size in pixels that were asked
/// for, each in its own place, as far as it can hold them.
pub proof fn law_size_is_asked_for_in_place(
    col_width: u32,
    row_height: u32,
    pix_width: u32,
    pix_height: u32,
    size: SerializablePtySize,
    value: u32,
    one: u16,
)
    requires
        call_ensures(pty_size, (col_width, row_height, pix_width, pix_height), size),
        call_ensures(clamp_dimension, (value,), one),
    ensures
        1 <= row_height <= 65535 ==> size.rows == row_height,
        1 <= col_width <= 65535 ==> size.cols == col_width,
        1 <= pix_width <= 65535 ==> size.pixel_width == pix_width,
        1 <= pix_height <= 65535 ==> size.pixel_height == pix_height,
        value == 0 ==> one == 1,
        1 <= value <= 65535 ==> one == value,
        value > 65535 ==> one == 65535,
{
}

/// A terminal that is in use writes what it is told while it takes input, sets
/// the size it is told, signals its process group, and is killed when the
/// channel closes; it tells that it is done with from then on, and then does
/// nothing.
pub proof fn law_terminal_follows_orders(
    keeper: &mut PtyKeeper,
    order: PtyControl,
    step: PtyStep,
    after: &PtyKeeper,
    done: bool,
)
    requires
        call_ensures(PtyKeeper::order, (keeper, order), step),
        after@ == final(keeper)@,
        call_ensures(PtyKeeper::done, (after,), done),
    ensures
        old(keeper)@.done ==> step is Nothing && done && final(keeper)@ == old(keeper)@,
        !old(keeper)@.done ==> match order {
            PtyControl::Write(data) => !done && final(keeper)@ == old(keeper)@ && (if old(keeper)@.writer_open {
                step == PtyStep::Write(data)
            } else {
                step is Nothing
            }),
            PtyControl::Resize(size) => !done && final(keeper)@ == old(keeper)@ && step
                == PtyStep::Resize(size),
            PtyControl::Signal(signal) => !done && final(keeper)@ == old(keeper)@ && (if old(keeper)@.platform is Unix && old(keeper)@.process_group is Some {
                step == PtyStep::SignalGroup(old(keeper)@.process_group->0, signal)
            } else {
                step is Nothing
            }),
            PtyControl::Eof => !done && step is DropWriter && !final(keeper)@.writer_open,
            PtyControl::Close => done && step is Kill,
        },
{
}

/// A process is signalled by its own number, with the signal that was asked for;
/// a number that no process can have is refused, and a signal that was not taken
/// is told of.
pub proof fn law_processes_are_signalled_by_number<
    F: FnOnce(i32, nix::sys::signal::Signal) -> bool,
    G: FnOnce(i32, nix::sys::signal::Signal) -> bool,
>(
    pid: u32,
    group: i32,
    signal: nix::sys::signal::Signal,
    kill: F,
    killpg: G,
    one: Result<(), SignalError>,
    all: Result<(), SignalError>,
)
    requires
        call_ensures(send_signal_to_pid::<F>, (pid, signal, kill), one),
        call_ensures(send_signal_to_process_group::<G>, (group, signal, killpg), all),
    ensures
        pid > 0x7fff_ffff ==> one is Err && one->Err_0 is PidTooLarge,
        pid <= 0x7fff_ffff ==> kill.ensures((pid as i32, signal), one is Ok),
        pid <= 0x7fff_ffff && one is Err ==> one->Err_0 is ChildNotSignalled,
        killpg.ensures((group, signal), all is Ok),
        all is Err ==> all->Err_0 is GroupNotSignalled,
{
}

/// Why a process was not signalled is told in its own words.
pub proof fn law_signal_errors_are_told_in_words(e: SignalError, words: &'static str)
    requires
        call_ensures(SignalError::message, (e,), words),
    ensures
        words@ == (match e {
            SignalError::PidTooLarge => "child pid too large"@,
            SignalError::ChildNotSignalled => "failed to signal child"@,
            SignalError::GroupNotSignalled => "failed to signal child process group"@,
        }),
{
}

/// A process is done with when its session is gone, or when it has ended and all
/// of its output is out; a Windows terminal that is served from here is not
/// waited for, as its output can stay open behind the end of its process. What
/// is still waited for is what has not come.
pub proof fn law_process_is_done_with_when_all_is_out(
    pump: &OutputPump,
    done: bool,
    output: bool,
    exit: bool,
)
    requires
        call_ensures(OutputPump::finished, (pump,), done),
        call_ensures(OutputPump::awaits_output, (pump,), output),
        call_ensures(OutputPump::awaits_exit, (pump,), exit),
    ensures
        output <==> !pump@.drained,
        exit <==> pump@.exit is None,
        pump@.broken ==> done,
        !pump@.broken && exit ==> !done,
        !pump@.broken && !exit && !output ==> done,
        !pump@.broken && !exit && output ==> (done <==> pump@.kind is ServicePty
            && pump@.platform is Windows),
{
}

/// A process starts with nothing out and no end.
pub proof fn law_draining_starts_with_everything_to_come(
    kind: PumpKind,
    platform: Platform,
    pump: OutputPump,
    done: bool,
)
    requires
        call_ensures(OutputPump::new, (kind, platform), pump),
        call_ensures(OutputPump::finished, (&pump,), done),
    ensures
        !done,
        pump@.kind == kind,
        pump@.platform == platform,
        pump@.exit is None,
        !pump@.drained,
        !pump@.broken,
{
}

} // verus!
