//! The server process supervisor: the status of the bundled server, the child process
//! handle it owns, and the decisions taken when starting, stopping and relaying output.
//!
//! The supervisor does no I/O itself. Whoever runs it spawns the child, feeds each event
//! of the child's output stream to [`ServerManager::on_child_event`], polls
//! [`ServerManager::poll_start`] while a start is pending, and kills the handle that
//! [`ServerManager::stop`] hands back.
use vstd::prelude::*;
use crate::readiness::{is_ready, is_ready_line, LogCategory};
use crate::text::{push_signed_decimal, signed_decimal, trim, trimmed};

verus! {

/// Relies on std::path::PathBuf only as an opaque value: the supervisor stores the data
/// directory and hands it back, and never looks inside it.
#[verifier::external_type_specification]
#[verifier::external_body]
pub struct ExPathBuf(std::path::PathBuf);

/// How long a start may wait for the readiness announcement.
pub const STARTUP_TIMEOUT_MS: u64 = 30000;

/// How often a pending start looks at the status again.
pub const POLL_INTERVAL_MS: u64 = 100;

/// Pause between the stop and the start of a restart.
pub const RESTART_DELAY_MS: u64 = 500;

/// The status of the bundled server.
#[derive(Debug, Clone, PartialEq)]
pub enum ServerStatus {
    Starting,
    Running,
    Stopped,
    Error(String),
}

/// The status with the error message as a character sequence.
pub enum StatusView {
    Starting,
    Running,
    Stopped,
    Error(Seq<char>),
}

impl View for ServerStatus {
    type V = StatusView;

    open spec fn view(&self) -> StatusView {
        match self {
            ServerStatus::Starting => StatusView::Starting,
            ServerStatus::Running => StatusView::Running,
            ServerStatus::Stopped => StatusView::Stopped,
            ServerStatus::Error(m) => StatusView::Error(m@),
        }
    }
}

pub open spec fn status_label(s: StatusView) -> Seq<char> {
    match s {
        StatusView::Starting => "starting"@,
        StatusView::Running => "running"@,
        StatusView::Stopped => "stopped"@,
        StatusView::Error(_) => "error"@,
    }
}

impl ServerStatus {
    /// The status as the user interface names it.
    pub fn label(&self) -> (r: &'static str)
        ensures
            r@ == status_label(self@),
    {
        match self {
            ServerStatus::Starting => "starting",
            ServerStatus::Running => "running",
            ServerStatus::Stopped => "stopped",
            ServerStatus::Error(_) => "error",
        }
    }
}

/// What a start request has to do.
#[derive(Debug, Clone, Copy, PartialEq, Eq, Structural)]
pub enum StartStep {
    /// The server is running already: nothing is spawned and the start succeeds.
    AlreadyRunning,
    /// Clear the port, spawn the child and wait for it to announce readiness.
    Launch,
}

/// Why a start failed.
#[derive(Debug, Clone, PartialEq)]
pub enum StartError {
    /// The child could not be created or spawned.
    SpawnFailed(String),
    /// No readiness announcement within the budget; the child is left running.
    TimedOut,
    /// The child exited with a failure while starting.
    Crashed(String),
    /// The child went away without a failure code while starting.
    StoppedUnexpectedly,
}

pub enum StartErrorView {
    SpawnFailed(Seq<char>),
    TimedOut,
    Crashed(Seq<char>),
    StoppedUnexpectedly,
}

impl View for StartError {
    type V = StartErrorView;

    open spec fn view(&self) -> StartErrorView {
        match self {
            StartError::SpawnFailed(m) => StartErrorView::SpawnFailed(m@),
            StartError::TimedOut => StartErrorView::TimedOut,
            StartError::Crashed(m) => StartErrorView::Crashed(m@),
            StartError::StoppedUnexpectedly => StartErrorView::StoppedUnexpectedly,
        }
    }
}

pub open spec fn start_error_message(e: StartErrorView) -> Seq<char> {
    match e {
        StartErrorView::SpawnFailed(m) => m,
        StartErrorView::TimedOut => "Server startup timed out"@,
        StartErrorView::Crashed(m) => m,
        StartErrorView::StoppedUnexpectedly => "Server stopped unexpectedly"@,
    }
}

impl StartError {
    /// The error as a sentence for the user.
    pub fn message(&self) -> (r: String)
        ensures
            r@ == start_error_message(self@),
    {
        match self {
            StartError::SpawnFailed(m) => m.clone(),
            StartError::TimedOut => String::from_str("Server startup timed out"),
            StartError::Crashed(m) => m.clone(),
            StartError::StoppedUnexpectedly => String::from_str("Server stopped unexpectedly"),
        }
    }
}

/// What a pending start learns from one look at the status.
#[derive(Debug, Clone, PartialEq)]
pub enum StartPoll {
    /// The server announced readiness: the start succeeds.
    Ready,
    /// Still starting: look again after [`POLL_INTERVAL_MS`].
    Wait,
    /// The start fails.
    Failed(StartError),
}

pub enum PollView {
    Ready,
    Wait,
    Failed(StartErrorView),
}

impl View for StartPoll {
    type V = PollView;

    open spec fn view(&self) -> PollView {
        match self {
            StartPoll::Ready => PollView::Ready,
            StartPoll::Wait => PollView::Wait,
            StartPoll::Failed(e) => PollView::Failed(e@),
        }
    }
}

/// One event of the child's output stream.
#[derive(Debug, Clone, PartialEq)]
pub enum ChildEvent {
    /// A line of standard output.
    Stdout(String),
    /// A line of standard error.
    Stderr(String),
    /// The child exited, with its exit code when it has one.
    Terminated(Option<i32>),
    /// Anything else the stream reports.
    Other,
}

pub enum EventView {
    Stdout(Seq<char>),
    Stderr(Seq<char>),
    Terminated(Option<i32>),
    Other,
}

impl View for ChildEvent {
    type V = EventView;

    open spec fn view(&self) -> EventView {
        match self {
            ChildEvent::Stdout(l) => EventView::Stdout(l@),
            ChildEvent::Stderr(l) => EventView::Stderr(l@),
            ChildEvent::Terminated(c) => EventView::Terminated(*c),
            ChildEvent::Other => EventView::Other,
        }
    }
}

/// A log line produced from the child's output: the text shown to the user, the text kept
/// in the log store, and how it is shown.
#[derive(Debug, Clone, PartialEq)]
pub struct LogEntry {
    pub shown: String,
    pub stored: String,
    pub category: LogCategory,
}

pub struct LogEntryView {
    pub shown: Seq<char>,
    pub stored: Seq<char>,
    pub category: LogCategory,
}

impl View for LogEntry {
    type V = LogEntryView;

    open spec fn view(&self) -> LogEntryView {
        LogEntryView { shown: self.shown@, stored: self.stored@, category: self.category }
    }
}

/// What relaying one event of the child's output produced.
#[derive(Debug, Clone, PartialEq)]
pub struct RelayStep {
    /// The log line to show and keep, if any.
    pub entry: Option<LogEntry>,
    /// The child has exited: the relay ends.
    pub finished: bool,
}

pub struct RelayView {
    pub entry: Option<LogEntryView>,
    pub finished: bool,
}

impl View for RelayStep {
    type V = RelayView;

    open spec fn view(&self) -> RelayView {
        RelayView {
            entry: match self.entry {
                Some(e) => Some(e@),
                None => None,
            },
            finished: self.finished,
        }
    }
}

pub open spec fn stdout_prefix() -> Seq<char> {
    "[moneywright] "@
}

pub open spec fn stderr_prefix() -> Seq<char> {
    "[moneywright:err] "@
}

/// The log line and error message of a child that exited with `code`.
pub open spec fn exit_message(code: i32) -> Seq<char> {
    "Server exited with code "@ + signed_decimal(code as int)
}

/// The state of a supervisor, as its contracts speak of it.
pub struct SupervisorState<C> {
    pub status: StatusView,
    pub child: Option<C>,
    pub data_dir: std::path::PathBuf,
}

impl<C> SupervisorState<C> {
    /// A start is a no-op when the server runs; otherwise the status becomes Starting.
    pub open spec fn begin_start(self) -> (StartStep, SupervisorState<C>) {
        if self.status is Running {
            (StartStep::AlreadyRunning, self)
        } else {
            (StartStep::Launch, SupervisorState { status: StatusView::Starting, ..self })
        }
    }

    /// The supervisor takes ownership of a freshly spawned child.
    pub open spec fn attach(self, child: C) -> SupervisorState<C> {
        SupervisorState { child: Some(child), ..self }
    }

    /// Spawning failed with `message`.
    pub open spec fn launch_failed(self, message: Seq<char>) -> SupervisorState<C> {
        SupervisorState { status: StatusView::Error(message), ..self }
    }

    /// A stop releases the child handle and always ends Stopped.
    pub open spec fn stop(self) -> SupervisorState<C> {
        SupervisorState { status: StatusView::Stopped, child: None, ..self }
    }

    /// One look at the status, `elapsed_ms` after the spawn, with a budget of `budget_ms`.
    pub open spec fn poll(self, elapsed_ms: nat, budget_ms: nat) -> PollView {
        if elapsed_ms > budget_ms {
            PollView::Failed(StartErrorView::TimedOut)
        } else {
            match self.status {
                StatusView::Running => PollView::Ready,
                StatusView::Error(m) => PollView::Failed(StartErrorView::Crashed(m)),
                StatusView::Stopped => PollView::Failed(StartErrorView::StoppedUnexpectedly),
                StatusView::Starting => PollView::Wait,
            }
        }
    }

    /// The status after the child exited with `code`.
    pub open spec fn exit_status(self, code: Option<i32>) -> StatusView {
        match code {
            Some(c) => if c == 0 {
                StatusView::Stopped
            } else if self.status is Running || self.status is Starting {
                StatusView::Error(exit_message(c))
            } else {
                self.status
            },
            None => StatusView::Stopped,
        }
    }

    /// Relaying one event of the child's output: the next state and what it produced.
    pub open spec fn relay(self, event: EventView) -> (SupervisorState<C>, RelayView) {
        match event {
            EventView::Stdout(raw) => {
                let line = trim(raw);
                if line.len() == 0 {
                    (self, RelayView { entry: None, finished: false })
                } else {
                    let entry = LogEntryView {
                        shown: line,
                        stored: stdout_prefix() + line,
                        category: LogCategory::Server,
                    };
                    let next = if is_ready(line) {
                        SupervisorState { status: StatusView::Running, ..self }
                    } else {
                        self
                    };
                    (next, RelayView { entry: Some(entry), finished: false })
                }
            },
            EventView::Stderr(raw) => {
                let line = trim(raw);
                if line.len() == 0 {
                    (self, RelayView { entry: None, finished: false })
                } else {
                    let entry = LogEntryView {
                        shown: line,
                        stored: stderr_prefix() + line,
                        category: LogCategory::Error,
                    };
                    (self, RelayView { entry: Some(entry), finished: false })
                }
            },
            EventView::Terminated(code) => {
                let (text, category) = match code {
                    Some(c) => if c == 0 {
                        ("Server stopped"@, LogCategory::Info)
                    } else {
                        (exit_message(c), LogCategory::Error)
                    },
                    None => ("Server terminated"@, LogCategory::Info),
                };
                let next = SupervisorState { status: self.exit_status(code), child: None, ..self };
                let entry = LogEntryView { shown: text, stored: text, category };
                (next, RelayView { entry: Some(entry), finished: true })
            },
            EventView::Other => (self, RelayView { entry: None, finished: false }),
        }
    }
}

/// The supervisor of the bundled server process. `C` is the type of the child handle; the
/// supervisor is its only owner.
pub struct ServerManager<C> {
    child: Option<C>,
    status: ServerStatus,
    data_dir: std::path::PathBuf,
}

impl<C> View for ServerManager<C> {
    type V = SupervisorState<C>;

    closed spec fn view(&self) -> SupervisorState<C> {
        SupervisorState { status: self.status@, child: self.child, data_dir: self.data_dir }
    }
}

impl<C> ServerManager<C> {
    /// A stopped supervisor with no child, for the given data directory.
    pub fn new(data_dir: std::path::PathBuf) -> (r: Self)
        ensures
            r@.status == StatusView::Stopped,
            r@.child is None,
            r@.data_dir == data_dir,
    {
        ServerManager { child: None, status: ServerStatus::Stopped, data_dir }
    }

    pub fn status(&self) -> (r: &ServerStatus)
        ensures
            r@ == self@.status,
    {
        &self.status
    }

    pub fn is_running(&self) -> (r: bool)
        ensures
            r == (self@.status is Running),
    {
        match self.status {
            ServerStatus::Running => true,
            _ => false,
        }
    }

    pub fn data_dir(&self) -> (r: &std::path::PathBuf)
        ensures
            *r == self@.data_dir,
    {
        &self.data_dir
    }

    /// Whether the supervisor holds a child handle.
    pub fn has_child(&self) -> (r: bool)
        ensures
            r == (self@.child is Some),
    {
        self.child.is_some()
    }

    /// The first step of a start: a no-op when the server runs already, otherwise the
    /// status becomes Starting and the caller goes on to launch the child.
    pub fn begin_start(&mut self) -> (r: StartStep)
        ensures
            (r, final(self)@) == old(self)@.begin_start(),
    {
        if self.is_running() {
            return StartStep::AlreadyRunning;
        }
        self.status = ServerStatus::Starting;
        StartStep::Launch
    }

    /// Takes ownership of a freshly spawned child; hands back a handle it displaced.
    pub fn attach_child(&mut self, child: C) -> (r: Option<C>)
        ensures
            r == old(self)@.child,
            final(self)@ == old(self)@.attach(child),
    {
        let previous = self.child.take();
        self.child = Some(child);
        previous
    }

    /// Records that the child could not be spawned, and gives the error of the start.
    pub fn launch_failed(&mut self, message: String) -> (r: StartError)
        ensures
            r@ == StartErrorView::SpawnFailed(message@),
            final(self)@ == old(self)@.launch_failed(message@),
    {
        self.status = ServerStatus::Error(message.clone());
        StartError::SpawnFailed(message)
    }

    /// One look at the status while a start waits, `elapsed_ms` after the spawn.
    pub fn poll_start(&self, elapsed_ms: u64, budget_ms: u64) -> (r: StartPoll)
        ensures
            r@ == self@.poll(elapsed_ms as nat, budget_ms as nat),
    {
        if elapsed_ms > budget_ms {
            return StartPoll::Failed(StartError::TimedOut);
        }
        match &self.status {
            ServerStatus::Running => StartPoll::Ready,
            ServerStatus::Error(m) => StartPoll::Failed(StartError::Crashed(m.clone())),
            ServerStatus::Stopped => StartPoll::Failed(StartError::StoppedUnexpectedly),
            ServerStatus::Starting => StartPoll::Wait,
        }
    }

    /// Stops the server: hands back the child handle for the caller to kill, and forces
    /// the status to Stopped whether or not a child was held.
    pub fn stop(&mut self) -> (r: Option<C>)
        ensures
            r == old(self)@.child,
            final(self)@ == old(self)@.stop(),
    {
        let child = self.child.take();
        self.status = ServerStatus::Stopped;
        child
    }

    /// Relays one event of the child's output stream: updates the status and gives the
    /// log line to show and keep.
    pub fn on_child_event(&mut self, event: ChildEvent) -> (r: RelayStep)
        ensures
            (final(self)@, r@) == old(self)@.relay(event@),
    {
        match event {
            ChildEvent::Stdout(raw) => {
                let line = trimmed(raw.as_str());
                if line.unicode_len() == 0 {
                    return RelayStep { entry: None, finished: false };
                }
                if is_ready_line(line) {
                    self.status = ServerStatus::Running;
                }
                let mut stored = String::from_str("[moneywright] ");
                stored.append(line);
                let entry = LogEntry {
                    shown: String::from_str(line),
                    stored,
                    category: LogCategory::Server,
                };
                RelayStep { entry: Some(entry), finished: false }
            },
            ChildEvent::Stderr(raw) => {
                let line = trimmed(raw.as_str());
                if line.unicode_len() == 0 {
                    return RelayStep { entry: None, finished: false };
                }
                let mut stored = String::from_str("[moneywright:err] ");
                stored.append(line);
                let entry = LogEntry {
                    shown: String::from_str(line),
                    stored,
                    category: LogCategory::Error,
                };
                RelayStep { entry: Some(entry), finished: false }
            },
            ChildEvent::Terminated(code) => {
                let (text, category) = match code {
                    Some(c) => {
                        if c == 0 {
                            self.status = ServerStatus::Stopped;
                            (String::from_str("Server stopped"), LogCategory::Info)
                        } else {
                            let mut text = String::from_str("Server exited with code ");
                            push_signed_decimal(&mut text, c);
                            let starting_or_running = match self.status {
                                ServerStatus::Running => true,
                                ServerStatus::Starting => true,
                                _ => false,
                            };
                            if starting_or_running {
                                self.status = ServerStatus::Error(text.clone());
                            }
                            (text, LogCategory::Error)
                        }
                    },
                    None => {
                        self.status = ServerStatus::Stopped;
                        (String::from_str("Server terminated"), LogCategory::Info)
                    },
                };
                self.child = None;
                let entry = LogEntry { shown: text.clone(), stored: text, category };
                RelayStep { entry: Some(entry), finished: true }
            },
            ChildEvent::Other => RelayStep { entry: None, finished: false },
        }
    }
}

/// The state after relaying `events` in order.
pub open spec fn replay<C>(s: SupervisorState<C>, events: Seq<EventView>) -> SupervisorState<C>
    decreases events.len(),
{
    if events.len() == 0 {
        s
    } else {
        replay(s, events.drop_last()).relay(events.last()).0
    }
}

/// An event of a child that keeps running without announcing readiness.
pub open spec fn is_quiet(event: EventView) -> bool {
    match event {
        EventView::Stdout(raw) => !is_ready(trim(raw)),
        EventView::Stderr(_) => true,
        EventView::Terminated(_) => false,
        EventView::Other => true,
    }
}

/// A child that never announces readiness and does not exit leaves the supervisor
/// Starting, whatever it prints; once the budget has passed, the start fails with a
/// timeout.
pub proof fn lemma_quiet_child_times_out<C>(
    s: SupervisorState<C>,
    events: Seq<EventView>,
    elapsed_ms: nat,
    budget_ms: nat,
)
    requires
        s.status == StatusView::Starting,
        forall|i: int| 0 <= i < events.len() ==> is_quiet(#[trigger] events[i]),
        elapsed_ms > budget_ms,
    ensures
        replay(s, events).status == StatusView::Starting,
        replay(s, events).poll(elapsed_ms, budget_ms) == PollView::Failed(StartErrorView::TimedOut),
    decreases events.len(),
{
    if events.len() > 0 {
        let rest = events.drop_last();
        assert forall|i: int| 0 <= i < rest.len() implies is_quiet(#[trigger] rest[i]) by {
            assert(rest[i] == events[i]);
        }
        lemma_quiet_child_times_out(s, rest, elapsed_ms, budget_ms);
        assert(is_quiet(events[events.len() - 1]));
    }
}

/// A restart is a stop followed by a start. Whatever the state before, the start launches
/// a fresh child (it never takes the already-running shortcut), and once that child
/// announces readiness the supervisor is Running with the new child, and a pending start
/// within its budget succeeds.
pub proof fn lemma_restart_cycle<C>(
    s: SupervisorState<C>,
    child: C,
    line: Seq<char>,
    elapsed_ms: nat,
    budget_ms: nat,
)
    requires
        is_ready(trim(line)),
        elapsed_ms <= budget_ms,
    ensures
        s.stop().begin_start().0 == StartStep::Launch,
        s.stop().begin_start().1.status == StatusView::Starting,
        s.stop().begin_start().1.child is None,
        ({
            let running = s.stop().begin_start().1.attach(child).relay(EventView::Stdout(line)).0;
            &&& running.status == StatusView::Running
            &&& running.child == Some(child)
            &&& running.poll(elapsed_ms, budget_ms) == PollView::Ready
        }),
{
    reveal_strlit("Listening on");
    reveal_strlit("Server running");
    reveal_strlit("Server is running");
    assert(trim(line).len() > 0);
}

/// A child that exits with a failure code while the server is starting fails the start
/// with the exit message, leaves the status at Error with that message, and releases the
/// child handle.
pub proof fn lemma_failed_exit_fails_start<C>(
    s: SupervisorState<C>,
    code: i32,
    elapsed_ms: nat,
    budget_ms: nat,
)
    requires
        s.status == StatusView::Starting,
        code != 0,
        elapsed_ms <= budget_ms,
    ensures
        s.relay(EventView::Terminated(Some(code))).0.status == StatusView::Error(exit_message(code)),
        s.relay(EventView::Terminated(Some(code))).0.child is None,
        s.relay(EventView::Terminated(Some(code))).0.poll(elapsed_ms, budget_ms) == PollView::Failed(
            StartErrorView::Crashed(exit_message(code)),
        ),
{
}

} // verus!
