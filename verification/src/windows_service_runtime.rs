//! Life of the daemon as a service that a service manager starts and stops.
use vstd::prelude::*;
use vstd::string::*;

use crate::config::Platform;
use crate::logging;
use crate::logging::{LogLine, LogLineView};
use crate::platform_paths;
use crate::sshd;
use crate::time::Duration;
use crate::values;

verus! {

pub const STARTUP_FAILURE_EXIT_CODE: u32 = 1;

pub const RUNTIME_FAILURE_EXIT_CODE: u32 = 2;

/// What a service is started with.
#[derive(Clone, Debug)]
pub struct WindowsServiceLaunchOptions {
    pub service_name: String,
    pub config_path: Option<String>,
    pub log_file: Option<String>,
}

/// Why a service cannot be dispatched.
#[derive(Clone, Copy, Debug, PartialEq, Eq, Structural)]
pub enum DispatchError {
    AlreadyInitialized,
    MissingOptions,
}

impl DispatchError {
    pub open spec fn text(self) -> Seq<char> {
        match self {
            DispatchError::AlreadyInitialized =>
                "windows service launch options were already initialized"@,
            DispatchError::MissingOptions => "missing windows service launch options"@,
        }
    }

    /// The error in words.
    pub fn message(self) -> (r: &'static str)
        ensures
            r@ == self.text(),
    {
        match self {
            DispatchError::AlreadyInitialized =>
                "windows service launch options were already initialized",
            DispatchError::MissingOptions => "missing windows service launch options",
        }
    }
}

/// Keeps the options for the service's own thread; they can be set once.
pub fn dispatch(
    launch: &mut Option<WindowsServiceLaunchOptions>,
    options: WindowsServiceLaunchOptions,
) -> (r: Result<(), DispatchError>)
    ensures
        *old(launch) is None ==> r is Ok && *final(launch) == Some(options),
        *old(launch) is Some ==> r == Err::<(), DispatchError>(DispatchError::AlreadyInitialized)
            && *final(launch) == *old(launch),
{
    if launch.is_some() {
        return Err(DispatchError::AlreadyInitialized);
    }
    *launch = Some(options);
    Ok(())
}

/// What a service is doing.
#[derive(Clone, Copy, Debug, PartialEq, Eq, Structural)]
pub enum ServiceState {
    StartPending,
    Running,
    StopPending,
    Stopped,
}

/// How a service has ended.
#[derive(Clone, Copy, Debug, PartialEq, Eq, Structural)]
pub enum ServiceExitCode {
    NoError,
    ServiceSpecific(u32),
}

/// What the service manager is told.
#[derive(Clone, Copy, Debug, PartialEq, Eq, Structural)]
pub struct ServiceStatus {
    pub current_state: ServiceState,
    /// Whether the service can be asked to stop, and told of a shutdown.
    pub accepts_stop: bool,
    pub exit_code: ServiceExitCode,
    pub checkpoint: u32,
    pub wait_hint: Duration,
}

/// The report that a service is starting.
pub open spec fn starting() -> ServiceStatus {
    ServiceStatus {
        current_state: ServiceState::StartPending,
        accepts_stop: false,
        exit_code: ServiceExitCode::NoError,
        checkpoint: 1,
        wait_hint: Duration { secs: 30, nanos: 0 },
    }
}

/// The report that a service is running.
pub open spec fn running() -> ServiceStatus {
    ServiceStatus {
        current_state: ServiceState::Running,
        accepts_stop: true,
        exit_code: ServiceExitCode::NoError,
        checkpoint: 0,
        wait_hint: Duration { secs: 0, nanos: 0 },
    }
}

/// The report that a service is stopping.
pub open spec fn stopping() -> ServiceStatus {
    ServiceStatus {
        current_state: ServiceState::StopPending,
        accepts_stop: false,
        exit_code: ServiceExitCode::NoError,
        checkpoint: 1,
        wait_hint: Duration { secs: 15, nanos: 0 },
    }
}

/// The report that a service has stopped.
pub open spec fn stopped(exit_code: ServiceExitCode) -> ServiceStatus {
    ServiceStatus {
        current_state: ServiceState::Stopped,
        accepts_stop: false,
        exit_code,
        checkpoint: 0,
        wait_hint: Duration { secs: 0, nanos: 0 },
    }
}

fn service_status(
    current_state: ServiceState,
    accepts_stop: bool,
    exit_code: ServiceExitCode,
    checkpoint: u32,
    wait_secs: u64,
) -> (r: ServiceStatus)
    ensures
        r == (ServiceStatus {
            current_state,
            accepts_stop,
            exit_code,
            checkpoint,
            wait_hint: Duration { secs: wait_secs, nanos: 0 },
        }),
{
    ServiceStatus {
        current_state,
        accepts_stop,
        exit_code,
        checkpoint,
        wait_hint: Duration { secs: wait_secs, nanos: 0 },
    }
}

fn stopped_with(exit_code: ServiceExitCode) -> (r: ServiceStatus)
    ensures
        r == stopped(exit_code),
{
    service_status(ServiceState::Stopped, false, exit_code, 0, 0)
}

/// What the service manager asks for.
#[derive(Clone, Copy, Debug, PartialEq, Eq, Structural)]
pub enum ServiceControl {
    Stop,
    Shutdown,
    Interrogate,
    Other,
}

/// What the service manager is answered.
#[derive(Clone, Copy, Debug, PartialEq, Eq, Structural)]
pub enum ControlAnswer {
    NoError,
    NotImplemented,
}

/// What is to be done with a request of the service manager.
#[derive(Clone, Copy, Debug, PartialEq, Eq, Structural)]
pub struct ControlStep {
    /// The report that is to be made.
    pub report: Option<ServiceStatus>,
    /// Whether the daemon is to be told to stop.
    pub shut_down: bool,
    pub answer: ControlAnswer,
}

/// What is to be done with a request, by whether the daemon has already been
/// told to stop.
pub open spec fn control_step(control: ServiceControl, told: bool) -> ControlStep {
    match control {
        ServiceControl::Stop | ServiceControl::Shutdown => ControlStep {
            report: Some(stopping()),
            shut_down: !told,
            answer: ControlAnswer::NoError,
        },
        ServiceControl::Interrogate => ControlStep {
            report: None,
            shut_down: false,
            answer: ControlAnswer::NoError,
        },
        ServiceControl::Other => ControlStep {
            report: None,
            shut_down: false,
            answer: ControlAnswer::NotImplemented,
        },
    }
}

/// Answers the service manager while a service runs.
#[derive(Debug)]
pub struct ControlHandler {
    told: bool,
}

impl View for ControlHandler {
    type V = bool;

    /// Whether the daemon has been told to stop.
    closed spec fn view(&self) -> bool {
        self.told
    }
}

impl ControlHandler {
    pub fn new() -> (r: Self)
        ensures
            r@ == false,
    {
        ControlHandler { told: false }
    }

    /// Answers a request.
    pub fn on_control(&mut self, control: ServiceControl) -> (r: ControlStep)
        ensures
            r == control_step(control, old(self)@),
            final(self)@ == (old(self)@ || control == ServiceControl::Stop || control
                == ServiceControl::Shutdown),
    {
        match control {
            ServiceControl::Stop | ServiceControl::Shutdown => {
                let shut_down = !self.told;
                self.told = true;
                ControlStep {
                    report: Some(
                        service_status(
                            ServiceState::StopPending,
                            false,
                            ServiceExitCode::NoError,
                            1,
                            15,
                        ),
                    ),
                    shut_down,
                    answer: ControlAnswer::NoError,
                }
            },
            ServiceControl::Interrogate => ControlStep {
                report: None,
                shut_down: false,
                answer: ControlAnswer::NoError,
            },
            ServiceControl::Other => ControlStep {
                report: None,
                shut_down: false,
                answer: ControlAnswer::NotImplemented,
            },
        }
    }
}

/// Whether the daemon has been told to stop after some requests.
pub open spec fn told_after(controls: Seq<ServiceControl>, told: bool) -> bool
    decreases controls.len(),
{
    if controls.len() == 0 {
        told
    } else {
        let last = controls.last();
        told_after(controls.drop_last(), told) || last == ServiceControl::Stop || last
            == ServiceControl::Shutdown
    }
}

/// The number of times that the daemon is told to stop by some requests.
pub open spec fn times_told(controls: Seq<ServiceControl>, told: bool) -> nat
    decreases controls.len(),
{
    if controls.len() == 0 {
        0
    } else {
        let before = told_after(controls.drop_last(), told);
        times_told(controls.drop_last(), told) + if control_step(
            controls.last(),
            before,
        ).shut_down {
            1nat
        } else {
            0nat
        }
    }
}

/// However often the service manager asks for an end, the daemon is told so
/// once; and once it is asked, the daemon is told.
pub proof fn law_shutdown_is_told_once(controls: Seq<ServiceControl>)
    ensures
        times_told(controls, false) == (if told_after(controls, false) {
            1nat
        } else {
            0nat
        }),
    decreases controls.len(),
{
    if controls.len() > 0 {
        law_shutdown_is_told_once(controls.drop_last());
    }
}

/// What a service does in turn.
#[derive(Clone, Copy, Debug, PartialEq, Eq, Structural)]
pub enum ServicePhase {
    Registering,
    Starting,
    LoadingConfig,
    OpeningLog,
    Announcing,
    PreparingRuntime,
    Serving,
    Stopping,
    Ended,
}

/// What is to be done next.
#[derive(Debug)]
pub enum ServiceAction {
    /// Register for requests of the service manager.
    Register,
    /// Log the line, then make the report.
    Report { line: Option<String>, status: ServiceStatus },
    /// Read the settings, from this file if one was asked for.
    LoadConfig { config_path: Option<String> },
    /// Set up the log, in this file if one was asked for.
    InitLogging { log_file: Option<String> },
    /// Set up what the daemon runs on.
    PrepareRuntime,
    /// Run the daemon until it ends.
    Serve,
    /// End well.
    Succeed,
    /// End badly: append the note to its file, log the line, make the report as
    /// far as that is possible, and fail with the error.
    Fail {
        note: Option<LogLine>,
        line: Option<String>,
        report: Option<ServiceStatus>,
        error: String,
    },
}

/// What is to be done next, in texts.
pub enum ActionView {
    Register,
    Report { line: Option<Seq<char>>, status: ServiceStatus },
    LoadConfig { config_path: Option<Seq<char>> },
    InitLogging { log_file: Option<Seq<char>> },
    PrepareRuntime,
    Serve,
    Succeed,
    Fail {
        note: Option<LogLineView>,
        line: Option<Seq<char>>,
        report: Option<ServiceStatus>,
        error: Seq<char>,
    },
}

impl View for ServiceAction {
    type V = ActionView;

    open spec fn view(&self) -> ActionView {
        match *self {
            ServiceAction::Register => ActionView::Register,
            ServiceAction::Report { line, status } => ActionView::Report {
                line: sshd::text_of(line),
                status,
            },
            ServiceAction::LoadConfig { config_path } => ActionView::LoadConfig {
                config_path: sshd::text_of(config_path),
            },
            ServiceAction::InitLogging { log_file } => ActionView::InitLogging {
                log_file: sshd::text_of(log_file),
            },
            ServiceAction::PrepareRuntime => ActionView::PrepareRuntime,
            ServiceAction::Serve => ActionView::Serve,
            ServiceAction::Succeed => ActionView::Succeed,
            ServiceAction::Fail { note, line, report, error } => ActionView::Fail {
                note: logging::line_view(note),
                line: sshd::text_of(line),
                report,
                error: error@,
            },
        }
    }
}

/// What a service is started with, in texts.
pub struct LaunchView {
    pub service_name: Seq<char>,
    pub config_path: Option<Seq<char>>,
    pub log_file: Option<Seq<char>>,
}

impl View for WindowsServiceLaunchOptions {
    type V = LaunchView;

    open spec fn view(&self) -> LaunchView {
        LaunchView {
            service_name: self.service_name@,
            config_path: sshd::text_of(self.config_path),
            log_file: sshd::text_of(self.log_file),
        }
    }
}

/// Where a service stands after its last action went well or not.
pub open spec fn next_phase(phase: ServicePhase, well: bool) -> ServicePhase {
    if !well {
        ServicePhase::Ended
    } else {
        match phase {
            ServicePhase::Registering => ServicePhase::Starting,
            ServicePhase::Starting => ServicePhase::LoadingConfig,
            ServicePhase::LoadingConfig => ServicePhase::OpeningLog,
            ServicePhase::OpeningLog => ServicePhase::Announcing,
            ServicePhase::Announcing => ServicePhase::PreparingRuntime,
            ServicePhase::PreparingRuntime => ServicePhase::Serving,
            ServicePhase::Serving => ServicePhase::Stopping,
            ServicePhase::Stopping => ServicePhase::Ended,
            ServicePhase::Ended => ServicePhase::Ended,
        }
    }
}

/// What follows an action that went well.
pub open spec fn action_after_success(phase: ServicePhase, launch: LaunchView) -> ActionView {
    let name = launch.service_name;
    match phase {
        ServicePhase::Registering => ActionView::Report { line: None, status: starting() },
        ServicePhase::Starting => ActionView::LoadConfig { config_path: launch.config_path },
        ServicePhase::LoadingConfig => ActionView::InitLogging { log_file: launch.log_file },
        ServicePhase::OpeningLog => ActionView::Report {
            line: Some("service="@ + name + " event=start"@),
            status: running(),
        },
        ServicePhase::Announcing => ActionView::PrepareRuntime,
        ServicePhase::PreparingRuntime => ActionView::Serve,
        ServicePhase::Serving => ActionView::Report {
            line: Some("service="@ + name + " event=stop result=success"@),
            status: stopped(ServiceExitCode::NoError),
        },
        ServicePhase::Stopping => ActionView::Succeed,
        ServicePhase::Ended => ActionView::Succeed,
    }
}

/// The note that a service leaves in its log file, if it has one, before the log
/// is set up.
pub open spec fn left_behind(launch: LaunchView, message: Seq<char>) -> Option<LogLineView> {
    logging::bootstrap_note(launch.log_file, message, Platform::Windows)
}

/// What follows an action that went wrong.
pub open spec fn action_after_failure(
    phase: ServicePhase,
    launch: LaunchView,
    error: Seq<char>,
) -> ActionView {
    let name = launch.service_name;
    let startup = Some(stopped(ServiceExitCode::ServiceSpecific(STARTUP_FAILURE_EXIT_CODE)));
    match phase {
        ServicePhase::Registering => ActionView::Fail {
            note: left_behind(
                launch,
                "failed to register service control handler for "@ + name + ": "@ + error,
            ),
            line: None,
            report: None,
            error: "failed to register the Windows service control handler"@,
        },
        ServicePhase::LoadingConfig => ActionView::Fail {
            note: left_behind(launch, "failed to load config for "@ + name + ": "@ + error),
            line: None,
            report: startup,
            error,
        },
        ServicePhase::OpeningLog => ActionView::Fail {
            note: left_behind(
                launch,
                "failed to initialize logging for service "@ + name + ": "@ + error,
            ),
            line: None,
            report: startup,
            error,
        },
        ServicePhase::PreparingRuntime => ActionView::Fail {
            note: None,
            line: None,
            report: None,
            error: "failed to create Tokio runtime for the Windows service"@,
        },
        ServicePhase::Serving => ActionView::Fail {
            note: None,
            line: Some("service="@ + name + " event=stop result=failure error="@ + error),
            report: Some(stopped(ServiceExitCode::ServiceSpecific(RUNTIME_FAILURE_EXIT_CODE))),
            error,
        },
        _ => ActionView::Fail { note: None, line: None, report: None, error },
    }
}

fn three(a: &str, b: &str, c: &str) -> (r: String)
    ensures
        r@ == a@ + b@ + c@,
{
    let mut out = values::sentence(a, b);
    out.append(c);
    out
}

/// A service from its start to its end.
#[derive(Debug)]
pub struct ServiceRun {
    launch: WindowsServiceLaunchOptions,
    phase: ServicePhase,
}

impl View for ServiceRun {
    type V = (LaunchView, ServicePhase);

    closed spec fn view(&self) -> (LaunchView, ServicePhase) {
        (self.launch@, self.phase)
    }
}

/// A text of one's own, where there is one.
fn owned(s: &Option<String>) -> (r: Option<String>)
    ensures
        sshd::text_of(r) == sshd::text_of(*s),
{
    match s {
        Some(s) => Some(String::from_str(s.as_str())),
        None => None,
    }
}

impl ServiceRun {
    /// Starts a service with the options that were kept for it.
    pub fn run_service(launch: &Option<WindowsServiceLaunchOptions>) -> (r: Result<
        (Self, ServiceAction),
        DispatchError,
    >)
        ensures
            match r {
                Ok((run, action)) => launch is Some && run@ == (
                    launch->0@,
                    ServicePhase::Registering,
                ) && action@ == ActionView::Register,
                Err(e) => launch is None && e == DispatchError::MissingOptions,
            },
    {
        match launch {
            None => Err(DispatchError::MissingOptions),
            Some(options) => Ok(
                (
                    ServiceRun {
                        launch: WindowsServiceLaunchOptions {
                            service_name: String::from_str(options.service_name.as_str()),
                            config_path: owned(&options.config_path),
                            log_file: owned(&options.log_file),
                        },
                        phase: ServicePhase::Registering,
                    },
                    ServiceAction::Register,
                ),
            ),
        }
    }

    /// The note that the service leaves in its log file.
    fn note(&self, message: &str) -> (r: Option<LogLine>)
        ensures
            logging::line_view(r) == left_behind(self@.0, message@),
    {
        match &self.launch.log_file {
            Some(path) => logging::append_bootstrap_error(
                Some(path.as_str()),
                message,
                Platform::Windows,
            ),
            None => None,
        }
    }

    /// The last action went well.
    pub fn succeeded(&mut self) -> (r: ServiceAction)
        ensures
            r@ == action_after_success(old(self)@.1, old(self)@.0),
            final(self)@ == (old(self)@.0, next_phase(old(self)@.1, true)),
    {
        let name = self.launch.service_name.as_str();
        let (phase, action) = match self.phase {
            ServicePhase::Registering => (
                ServicePhase::Starting,
                ServiceAction::Report {
                    line: None,
                    status: service_status(
                        ServiceState::StartPending,
                        false,
                        ServiceExitCode::NoError,
                        1,
                        30,
                    ),
                },
            ),
            ServicePhase::Starting => (
                ServicePhase::LoadingConfig,
                ServiceAction::LoadConfig { config_path: owned(&self.launch.config_path) },
            ),
            ServicePhase::LoadingConfig => (
                ServicePhase::OpeningLog,
                ServiceAction::InitLogging { log_file: owned(&self.launch.log_file) },
            ),
            ServicePhase::OpeningLog => (
                ServicePhase::Announcing,
                ServiceAction::Report {
                    line: Some(three("service=", name, " event=start")),
                    status: service_status(
                        ServiceState::Running,
                        true,
                        ServiceExitCode::NoError,
                        0,
                        0,
                    ),
                },
            ),
            ServicePhase::Announcing => (
                ServicePhase::PreparingRuntime,
                ServiceAction::PrepareRuntime,
            ),
            ServicePhase::PreparingRuntime => (ServicePhase::Serving, ServiceAction::Serve),
            ServicePhase::Serving => (
                ServicePhase::Stopping,
                ServiceAction::Report {
                    line: Some(three("service=", name, " event=stop result=success")),
                    status: stopped_with(ServiceExitCode::NoError),
                },
            ),
            ServicePhase::Stopping => (ServicePhase::Ended, ServiceAction::Succeed),
            ServicePhase::Ended => (ServicePhase::Ended, ServiceAction::Succeed),
        };
        self.phase = phase;
        action
    }

    /// The last action went wrong.
    pub fn failed(&mut self, error: &str) -> (r: ServiceAction)
        ensures
            r@ == action_after_failure(old(self)@.1, old(self)@.0, error@),
            final(self)@ == (old(self)@.0, next_phase(old(self)@.1, false)),
    {
        let name = self.launch.service_name.as_str();
        let startup = ServiceExitCode::ServiceSpecific(STARTUP_FAILURE_EXIT_CODE);
        let action = match self.phase {
            ServicePhase::Registering => {
                let mut note = three(
                    "failed to register service control handler for ",
                    name,
                    ": ",
                );
                note.append(error);
                ServiceAction::Fail {
                    note: self.note(note.as_str()),
                    line: None,
                    report: None,
                    error: String::from_str(
                        "failed to register the Windows service control handler",
                    ),
                }
            },
            ServicePhase::LoadingConfig => {
                let mut note = three("failed to load config for ", name, ": ");
                note.append(error);
                ServiceAction::Fail {
                    note: self.note(note.as_str()),
                    line: None,
                    report: Some(stopped_with(startup)),
                    error: String::from_str(error),
                }
            },
            ServicePhase::OpeningLog => {
                let mut note = three("failed to initialize logging for service ", name, ": ");
                note.append(error);
                ServiceAction::Fail {
                    note: self.note(note.as_str()),
                    line: None,
                    report: Some(stopped_with(startup)),
                    error: String::from_str(error),
                }
            },
            ServicePhase::PreparingRuntime => ServiceAction::Fail {
                note: None,
                line: None,
                report: None,
                error: String::from_str("failed to create Tokio runtime for the Windows service"),
            },
            ServicePhase::Serving => {
                let mut line = three("service=", name, " event=stop result=failure error=");
                line.append(error);
                ServiceAction::Fail {
                    note: None,
                    line: Some(line),
                    report: Some(
                        stopped_with(ServiceExitCode::ServiceSpecific(RUNTIME_FAILURE_EXIT_CODE)),
                    ),
                    error: String::from_str(error),
                }
            },
            _ => ServiceAction::Fail {
                note: None,
                line: None,
                report: None,
                error: String::from_str(error),
            },
        };
        self.phase = ServicePhase::Ended;
        action
    }
}

/// A service that stopped well has served to its end: no failure is reported
/// with the code of a good end.
pub proof fn law_failures_are_not_reported_as_success(
    phase: ServicePhase,
    launch: LaunchView,
    error: Seq<char>,
)
    ensures
        match action_after_failure(phase, launch, error) {
            ActionView::Fail { report: Some(status), .. } => status.exit_code
                != ServiceExitCode::NoError && status.current_state == ServiceState::Stopped,
            ActionView::Fail { report: None, .. } => true,
            _ => false,
        },
        next_phase(phase, false) == ServicePhase::Ended,
        match action_after_success(phase, launch) {
            ActionView::Report { status, .. } => (status.current_state == ServiceState::Stopped)
                == (phase == ServicePhase::Serving),
            _ => true,
        },
{
}

/// A request to stop, or the machine's shutdown, is reported as stopping and
/// tells the daemon to stop unless it has been told; a question is answered, and
/// any other request is not served.
pub proof fn law_requests_of_the_manager_are_answered(
    fresh: ControlHandler,
    handler: &mut ControlHandler,
    control: ServiceControl,
    step: ControlStep,
)
    requires
        call_ensures(ControlHandler::new, (), fresh),
        call_ensures(ControlHandler::on_control, (handler, control), step),
    ensures
        !fresh@,
        control is Stop || control is Shutdown ==> {
            &&& step.report is Some
            &&& step.report->0.current_state is StopPending
            &&& step.report->0.exit_code is NoError
            &&& !step.report->0.accepts_stop
            &&& step.report->0.checkpoint == 1
            &&& step.report->0.wait_hint.secs == 15 && step.report->0.wait_hint.nanos == 0
            &&& step.shut_down == !old(handler)@
            &&& step.answer is NoError
            &&& final(handler)@
        },
        control is Interrogate || control is Other ==> step.report is None && !step.shut_down
            && final(handler)@ == old(handler)@,
        control is Interrogate ==> step.answer is NoError,
        control is Other ==> step.answer is NotImplemented,
{
}

/// The options of a service are kept once, and it starts with those.
pub proof fn law_service_starts_with_what_was_kept(
    launch: &mut Option<WindowsServiceLaunchOptions>,
    options: WindowsServiceLaunchOptions,
    kept: Result<(), DispatchError>,
    seen: &Option<WindowsServiceLaunchOptions>,
    run: Result<(ServiceRun, ServiceAction), DispatchError>,
)
    requires
        call_ensures(dispatch, (launch, options), kept),
        *seen == *final(launch),
        call_ensures(ServiceRun::run_service, (seen,), run),
    ensures
        *old(launch) is None ==> kept is Ok,
        *old(launch) is Some ==> kept is Err && kept->Err_0 is AlreadyInitialized,
        run is Ok && run->Ok_0.1 is Register,
        ({
            let used = match *old(launch) {
                Some(first) => first,
                None => options,
            };
            let told = run->Ok_0.0@.0;
            &&& told.service_name == used.service_name@
            &&& told.config_path is Some == used.config_path is Some
            &&& used.config_path is Some ==> told.config_path->0 == used.config_path->0@
            &&& told.log_file is Some == used.log_file is Some
            &&& used.log_file is Some ==> told.log_file->0 == used.log_file->0@
        }),
{
}

/// Without options no service starts.
pub proof fn law_service_needs_options(
    launch: &Option<WindowsServiceLaunchOptions>,
    run: Result<(ServiceRun, ServiceAction), DispatchError>,
)
    requires
        call_ensures(ServiceRun::run_service, (launch,), run),
        launch is None,
    ensures
        run is Err && run->Err_0 is MissingOptions,
{
}

/// A service that goes well registers, reports that it starts, reads the
/// settings that it was told of, opens the log that it was told of, reports that
/// it runs, serves, reports that it has stopped without an error, and ends.
pub proof fn law_good_service_goes_from_start_to_end(
    launch: &Option<WindowsServiceLaunchOptions>,
    started: Result<(ServiceRun, ServiceAction), DispatchError>,
    registered: &mut ServiceRun,
    next0: ServiceAction,
    starting_up: &mut ServiceRun,
    next1: ServiceAction,
    configured: &mut ServiceRun,
    next2: ServiceAction,
    logged: &mut ServiceRun,
    next3: ServiceAction,
    announced: &mut ServiceRun,
    next4: ServiceAction,
    prepared: &mut ServiceRun,
    next5: ServiceAction,
    served: &mut ServiceRun,
    next6: ServiceAction,
    stopped_well: &mut ServiceRun,
    next7: ServiceAction,
)
    requires
        launch is Some,
        call_ensures(ServiceRun::run_service, (launch,), started),
        started is Ok ==> old(registered)@ == started->Ok_0.0@,
        call_ensures(ServiceRun::succeeded, (registered,), next0),
        old(starting_up)@ == final(registered)@,
        call_ensures(ServiceRun::succeeded, (starting_up,), next1),
        old(configured)@ == final(starting_up)@,
        call_ensures(ServiceRun::succeeded, (configured,), next2),
        old(logged)@ == final(configured)@,
        call_ensures(ServiceRun::succeeded, (logged,), next3),
        old(announced)@ == final(logged)@,
        call_ensures(ServiceRun::succeeded, (announced,), next4),
        old(prepared)@ == final(announced)@,
        call_ensures(ServiceRun::succeeded, (prepared,), next5),
        old(served)@ == final(prepared)@,
        call_ensures(ServiceRun::succeeded, (served,), next6),
        old(stopped_well)@ == final(served)@,
        call_ensures(ServiceRun::succeeded, (stopped_well,), next7),
    ensures
        started is Ok && started->Ok_0.1 is Register,
        next0@ == (ActionView::Report {
            line: None,
            status: (ServiceStatus {
                current_state: ServiceState::StartPending,
                accepts_stop: false,
                exit_code: ServiceExitCode::NoError,
                checkpoint: 1,
                wait_hint: (Duration { secs: 30, nanos: 0 }),
            }),
        }),
        next1@ == (ActionView::LoadConfig { config_path: launch->0@.config_path }),
        next2@ == (ActionView::InitLogging { log_file: launch->0@.log_file }),
        next3@ == (ActionView::Report {
            line: Some("service="@ + launch->0.service_name@ + " event=start"@),
            status: (ServiceStatus {
                current_state: ServiceState::Running,
                accepts_stop: true,
                exit_code: ServiceExitCode::NoError,
                checkpoint: 0,
                wait_hint: (Duration { secs: 0, nanos: 0 }),
            }),
        }),
        next4@ == ActionView::PrepareRuntime,
        next5@ == ActionView::Serve,
        next6@ == (ActionView::Report {
            line: Some("service="@ + launch->0.service_name@ + " event=stop result=success"@),
            status: (ServiceStatus {
                current_state: ServiceState::Stopped,
                accepts_stop: false,
                exit_code: ServiceExitCode::NoError,
                checkpoint: 0,
                wait_hint: (Duration { secs: 0, nanos: 0 }),
            }),
        }),
        next7@ == ActionView::Succeed,
        started->Ok_0.0@.1 is Registering,
        final(starting_up)@.1 is LoadingConfig,
        final(configured)@.1 is OpeningLog,
        final(announced)@.1 is PreparingRuntime,
        final(prepared)@.1 is Serving,
        final(stopped_well)@.1 is Ended,
{
}

/// A service whose start fails leaves a note in its log file, if it has one, and
/// reports its own code for that, as far as it can report; one that fails while
/// it serves reports another. It fails with the error, or says what it could not
/// do, and has ended.
pub proof fn law_bad_service_tells_what_failed(
    run: &mut ServiceRun,
    error: &str,
    action: ServiceAction,
)
    requires
        call_ensures(ServiceRun::failed, (run, error), action),
    ensures
        action is Fail,
        final(run)@.1 is Ended,
        final(run)@.0 == old(run)@.0,
        ({
            let name = old(run)@.0.service_name;
            let log = old(run)@.0.log_file;
            let ended = |code: u32|
                ServiceStatus {
                    current_state: ServiceState::Stopped,
                    accepts_stop: false,
                    exit_code: ServiceExitCode::ServiceSpecific(code),
                    checkpoint: 0,
                    wait_hint: (Duration { secs: 0, nanos: 0 }),
                };
            let noted = |message: Seq<char>|
                match log {
                    Some(path) => Some(
                        LogLineView {
                            directory: platform_paths::parent_of(path, Platform::Windows),
                            path,
                            line: "narrowd bootstrap error: "@ + message + "\n"@,
                        },
                    ),
                    None => None,
                };
            match old(run)@.1 {
                ServicePhase::Registering => action@ == (ActionView::Fail {
                    note: noted(
                        "failed to register service control handler for "@ + name + ": "@ + error@,
                    ),
                    line: None,
                    report: None,
                    error: "failed to register the Windows service control handler"@,
                }),
                ServicePhase::LoadingConfig => action@ == (ActionView::Fail {
                    note: noted("failed to load config for "@ + name + ": "@ + error@),
                    line: None,
                    report: Some(ended(1)),
                    error: error@,
                }),
                ServicePhase::OpeningLog => action@ == (ActionView::Fail {
                    note: noted(
                        "failed to initialize logging for service "@ + name + ": "@ + error@,
                    ),
                    line: None,
                    report: Some(ended(1)),
                    error: error@,
                }),
                ServicePhase::PreparingRuntime => action@ == (ActionView::Fail {
                    note: None,
                    line: None,
                    report: None,
                    error: "failed to create Tokio runtime for the Windows service"@,
                }),
                ServicePhase::Serving => action@ == (ActionView::Fail {
                    note: None,
                    line: Some("service="@ + name + " event=stop result=failure error="@ + error@),
                    report: Some(ended(2)),
                    error: error@,
                }),
                _ => action@ == (ActionView::Fail {
                    note: None,
                    line: None,
                    report: None,
                    error: error@,
                }),
            }
        }),
{
}

/// The two reasons for which no service starts are told apart.
pub proof fn law_dispatch_errors_are_told_apart(e: DispatchError, words: &'static str)
    requires
        call_ensures(DispatchError::message, (e,), words),
    ensures
        e is AlreadyInitialized ==> words@
            == "windows service launch options were already initialized"@,
        e is MissingOptions ==> words@ == "missing windows service launch options"@,
{
}

} // verus!
