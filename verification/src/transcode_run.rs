//! The state of a transcode run as the workspace shows it: each event the run
//! reports changes it and adds messages to the log.
use vstd::prelude::*;
use vstd::string::*;
use crate::messages::MessageLevel;
use crate::progress::{empty_progress, Progress, ProgressView};
use crate::text::{decimal, decimal_string};
use crate::predict_run::Activity;

verus! {

/// A step of a run.
#[derive(Debug, Clone, Copy, PartialEq, Eq, Structural)]
pub enum RunPhase {
    Discovering,
    Probing,
    Planning,
    Predicting,
    Transcoding,
    Verifying,
    Publishing,
    CalculatingVmaf,
    RenderingChart,
}

/// The label of a run's current step.
pub open spec fn phase_text(phase: Option<RunPhase>) -> Seq<char> {
    match phase {
        Some(RunPhase::Discovering) => "Discovering files"@,
        Some(RunPhase::Probing) => "Probing media"@,
        Some(RunPhase::Planning) => "Preparing run"@,
        Some(RunPhase::Predicting) => "Predicting"@,
        Some(RunPhase::Transcoding) => "Transcoding"@,
        Some(RunPhase::Verifying) => "Verifying output"@,
        Some(RunPhase::Publishing) => "Publishing output"@,
        Some(RunPhase::CalculatingVmaf) => "Calculating VMAF"@,
        Some(RunPhase::RenderingChart) => "Rendering chart"@,
        None => "Starting"@,
    }
}

/// The label of a run's current step.
pub fn phase_label(phase: Option<RunPhase>) -> (r: &'static str)
    ensures
        r@ == phase_text(phase),
{
    match phase {
        Some(RunPhase::Discovering) => "Discovering files",
        Some(RunPhase::Probing) => "Probing media",
        Some(RunPhase::Planning) => "Preparing run",
        Some(RunPhase::Predicting) => "Predicting",
        Some(RunPhase::Transcoding) => "Transcoding",
        Some(RunPhase::Verifying) => "Verifying output",
        Some(RunPhase::Publishing) => "Publishing output",
        Some(RunPhase::CalculatingVmaf) => "Calculating VMAF",
        Some(RunPhase::RenderingChart) => "Rendering chart",
        None => "Starting",
    }
}

/// The label of a transcode's current step: planning is preparing the transcode.
pub open spec fn transcode_phase_text(phase: Option<RunPhase>) -> Seq<char> {
    if phase == Some(RunPhase::Planning) {
        "Preparing transcode"@
    } else {
        phase_text(phase)
    }
}

/// What the status bar shows of a running transcode: its step, and its task position
/// once a task has begun. The percentage of the current file is not part of it.
pub open spec fn transcode_running_text(phase: Option<RunPhase>, index: nat, total: nat) -> Seq<char> {
    transcode_phase_text(phase) + if index > 0 {
        " · "@ + decimal(index) + "/"@ + decimal(total)
    } else {
        seq![]
    }
}

/// The step label of a transcode run.
fn transcode_phase_label(phase: Option<RunPhase>) -> (r: &'static str)
    ensures
        r@ == transcode_phase_text(phase),
{
    match phase {
        Some(RunPhase::Planning) => "Preparing transcode",
        _ => phase_label(phase),
    }
}

/// How a run ended.
#[derive(Debug, Clone, Copy, PartialEq, Eq, Structural)]
pub enum RunStatus {
    Success,
    Failure,
    Cancelled,
}

/// How one task of a run ended.
#[derive(Debug, Clone, Copy, PartialEq, Eq, Structural)]
pub enum TaskStatus {
    Success,
    Failure,
    Cancelled,
}

/// How a task appears in the results list.
#[derive(Debug, Clone, Copy, PartialEq, Eq, Structural)]
pub enum ResultStatus {
    Success,
    Failure,
    Cancelled,
    Skipped,
}

/// How the VMAF calculation after a task ended; a score is the text shown for it.
#[derive(Debug)]
pub enum VmafOutcome {
    Scored(String),
    Failed(String),
    Cancelled,
}

/// What a run reports while it works.
#[derive(Debug)]
pub enum RunEvent {
    PhaseChanged(RunPhase),
    BatchDiscovered { total: usize, skipped: usize },
    InputSkipped { input: String, error: String },
    TaskStarted { index: usize, total: usize, input: String, output: Option<String> },
    Progress { duration_us: Option<u64>, progress: Progress },
    VmafFinished { output: String, outcome: VmafOutcome },
    Warning { message: String },
    Error { message: String },
    TaskFinished { input: String, total: usize, status: TaskStatus, error: Option<String> },
}

/// What a finished run reports besides its status.
#[derive(Debug)]
pub enum RunOutcome {
    Completed,
    Cancelled,
    Failed(String),
    Batch { total: usize, succeeded: usize, failed: usize },
}

/// Where the run is.
#[derive(Debug, Clone, Copy, PartialEq, Eq, Structural)]
pub enum Stage {
    Idle,
    Running,
    Cancelling,
    Finished(RunStatus),
}

/// One line of the results list.
#[derive(Debug)]
pub struct TaskResult {
    pub name: String,
    pub status: ResultStatus,
    pub error: Option<String>,
}

/// A message for the log, from the program.
pub type LogLine = (MessageLevel, Seq<char>);

/// The run state as plain values.
pub struct RunView {
    pub stage: Stage,
    pub cancellable: bool,
    pub error: Option<Seq<char>>,
    pub notice: Option<LogLine>,
    pub phase: Option<RunPhase>,
    pub current_name: Option<Seq<char>>,
    pub current_output: Option<Seq<char>>,
    pub completed_output: Option<Seq<char>>,
    pub task_index: nat,
    pub task_total: nat,
    pub succeeded: nat,
    pub failed: nat,
    pub skipped: nat,
    pub duration_us: Option<u64>,
    pub progress: ProgressView,
    pub results: Seq<(Seq<char>, ResultStatus, Option<Seq<char>>)>,
}

/// The view of an optional text.
pub open spec fn text_of(o: Option<String>) -> Option<Seq<char>> {
    match o {
        Some(s) => Some(s@),
        None => None,
    }
}

/// The state of a transcode run.
#[derive(Debug)]
pub struct TranscodeRun {
    stage: Stage,
    cancellable: bool,
    error: Option<String>,
    notice: Option<(MessageLevel, String)>,
    phase: Option<RunPhase>,
    current_name: Option<String>,
    current_output: Option<String>,
    completed_output: Option<String>,
    task_index: usize,
    task_total: usize,
    succeeded: usize,
    failed: usize,
    skipped: usize,
    duration_us: Option<u64>,
    progress: Progress,
    results: Vec<TaskResult>,
}

impl View for TranscodeRun {
    type V = RunView;

    closed spec fn view(&self) -> RunView {
        RunView {
            stage: self.stage,
            cancellable: self.cancellable,
            error: text_of(self.error),
            notice: match self.notice {
                Some((l, t)) => Some((l, t@)),
                None => None,
            },
            phase: self.phase,
            current_name: text_of(self.current_name),
            current_output: text_of(self.current_output),
            completed_output: text_of(self.completed_output),
            task_index: self.task_index as nat,
            task_total: self.task_total as nat,
            succeeded: self.succeeded as nat,
            failed: self.failed as nat,
            skipped: self.skipped as nat,
            duration_us: self.duration_us,
            progress: self.progress@,
            results: self.results@.map_values(|r: TaskResult| (r.name@, r.status, text_of(r.error))),
        }
    }
}

/// A run that has not started.
pub open spec fn idle_view() -> RunView {
    RunView {
        stage: Stage::Idle,
        cancellable: false,
        error: None,
        notice: None,
        phase: None,
        current_name: None,
        current_output: None,
        completed_output: None,
        task_index: 0,
        task_total: 1,
        succeeded: 0,
        failed: 0,
        skipped: 0,
        duration_us: None,
        progress: empty_progress(),
        results: seq![],
    }
}

/// A run that has just started.
pub open spec fn started_view() -> RunView {
    RunView { stage: Stage::Running, cancellable: true, ..idle_view() }
}

/// The level and label of a finished task.
pub open spec fn task_label(status: TaskStatus) -> LogLine {
    match status {
        TaskStatus::Success => (MessageLevel::Info, "Completed"@),
        TaskStatus::Failure => (MessageLevel::Error, "Failed"@),
        TaskStatus::Cancelled => (MessageLevel::Warning, "Cancelled"@),
    }
}

/// The results-list status of a finished task.
pub open spec fn result_status(status: TaskStatus) -> ResultStatus {
    match status {
        TaskStatus::Success => ResultStatus::Success,
        TaskStatus::Failure => ResultStatus::Failure,
        TaskStatus::Cancelled => ResultStatus::Cancelled,
    }
}

/// The level and label of a finished run.
pub open spec fn run_label(status: RunStatus) -> LogLine {
    match status {
        RunStatus::Success => (MessageLevel::Info, "Run completed"@),
        RunStatus::Failure => (MessageLevel::Error, "Run failed"@),
        RunStatus::Cancelled => (MessageLevel::Warning, "Run cancelled"@),
    }
}

/// `text`, followed by `: ` and `detail` when there is one.
pub open spec fn with_detail(text: Seq<char>, detail: Option<Seq<char>>) -> Seq<char> {
    match detail {
        Some(d) => text + ": "@ + d,
        None => text,
    }
}

/// The state after `e` and the messages it logs.
pub open spec fn event_step(v: RunView, e: RunEvent) -> (RunView, Seq<LogLine>) {
    match e {
        RunEvent::PhaseChanged(p) => (
            RunView { phase: Some(p), ..v },
            seq![(MessageLevel::Info, transcode_phase_text(Some(p)))],
        ),
        RunEvent::BatchDiscovered { total, skipped } => (
            RunView { task_total: total as nat, skipped: skipped as nat, ..v },
            seq![
                (
                    MessageLevel::Info,
                    "Discovered "@ + decimal(total as nat) + " video files; "@ + decimal(skipped as nat)
                        + " skipped"@,
                ),
            ],
        ),
        RunEvent::InputSkipped { input, error } => (
            RunView { results: v.results.push((input@, ResultStatus::Skipped, Some(error@))), ..v },
            seq![(MessageLevel::Warning, "Skipped "@ + input@ + ": "@ + error@)],
        ),
        RunEvent::TaskStarted { index, total, input, output } => (
            RunView {
                task_index: index as nat,
                task_total: total as nat,
                current_name: Some(input@),
                current_output: text_of(output),
                notice: None,
                duration_us: None,
                progress: empty_progress(),
                ..v
            },
            seq![(MessageLevel::Info, "Task "@ + decimal(index as nat) + "/"@ + decimal(total as nat) + ": "@ + input@)],
        ),
        RunEvent::Progress { duration_us, progress } => (
            RunView { duration_us, progress: progress@, ..v },
            seq![],
        ),
        RunEvent::VmafFinished { output, outcome } => match outcome {
            VmafOutcome::Scored(score) => (
                RunView { notice: Some((MessageLevel::Info, "VMAF "@ + score@)), ..v },
                seq![(MessageLevel::Info, "VMAF "@ + score@ + ": "@ + output@)],
            ),
            VmafOutcome::Failed(error) => (
                RunView { notice: Some((MessageLevel::Warning, "VMAF failed: "@ + error@)), ..v },
                seq![],
            ),
            VmafOutcome::Cancelled => (
                RunView { notice: Some((MessageLevel::Warning, "VMAF cancelled"@)), ..v },
                seq![],
            ),
        },
        RunEvent::Warning { message } => (
            RunView { notice: Some((MessageLevel::Warning, message@)), ..v },
            seq![(MessageLevel::Warning, message@)],
        ),
        RunEvent::Error { message } => (
            RunView { notice: Some((MessageLevel::Error, message@)), ..v },
            seq![(MessageLevel::Error, message@)],
        ),
        RunEvent::TaskFinished { input, total, status, error } => (
            RunView {
                succeeded: if status == TaskStatus::Success {
                    v.succeeded + 1
                } else {
                    v.succeeded
                },
                failed: if status == TaskStatus::Failure {
                    v.failed + 1
                } else {
                    v.failed
                },
                completed_output: if status == TaskStatus::Success && total == 1 {
                    v.current_output
                } else {
                    v.completed_output
                },
                results: if total == 1 || status != TaskStatus::Success {
                    v.results.push((input@, result_status(status), text_of(error)))
                } else {
                    v.results
                },
                ..v
            },
            seq![(task_label(status).0, with_detail(task_label(status).1 + ": "@ + input@, text_of(error)))],
        ),
    }
}

/// Whether the counters leave room for one more finished task.
pub open spec fn counts_fit(v: RunView) -> bool {
    v.succeeded < usize::MAX && v.failed < usize::MAX
}

/// The state after the run ended with `status` and `outcome`, and the message it logs.
pub open spec fn finish_step(v: RunView, status: RunStatus, outcome: RunOutcome) -> (RunView, LogLine) {
    let failure = match outcome {
        RunOutcome::Failed(d) => Some(d@),
        _ => None,
    };
    let w = RunView {
        stage: Stage::Finished(status),
        cancellable: false,
        error: match failure {
            Some(d) => Some(d),
            None => v.error,
        },
        ..v
    };
    let w = match outcome {
        RunOutcome::Batch { total, succeeded, failed } => RunView {
            task_total: total as nat,
            succeeded: succeeded as nat,
            failed: failed as nat,
            ..w
        },
        _ => w,
    };
    (w, (run_label(status).0, with_detail(run_label(status).1, failure)))
}

fn opt_copy(o: &Option<String>) -> (r: Option<String>)
    ensures
        text_of(r) == text_of(*o),
{
    match o {
        Some(s) => Some(s.clone()),
        None => None,
    }
}

impl TranscodeRun {
    /// A run that has not started.
    pub fn new() -> (r: TranscodeRun)
        ensures
            r@ == idle_view(),
    {
        let r = TranscodeRun {
            stage: Stage::Idle,
            cancellable: false,
            error: None,
            notice: None,
            phase: None,
            current_name: None,
            current_output: None,
            completed_output: None,
            task_index: 0,
            task_total: 1,
            succeeded: 0,
            failed: 0,
            skipped: 0,
            duration_us: None,
            progress: Progress::default(),
            results: Vec::new(),
        };
        assert(r@.results =~= Seq::<(Seq<char>, ResultStatus, Option<Seq<char>>)>::empty());
        r
    }

    /// Whether a new run may start: none is running or being cancelled.
    pub fn can_start(&self) -> (r: bool)
        ensures
            r == !(self@.stage is Running || self@.stage is Cancelling),
    {
        match self.stage {
            Stage::Running | Stage::Cancelling => false,
            _ => true,
        }
    }

    /// Records that the run's settings were refused with `error`; returns the message logged.
    pub fn refuse(&mut self, error: String) -> (m: (MessageLevel, String))
        ensures
            final(self)@ == (RunView { error: Some(error@), ..old(self)@ }),
            m.0 == MessageLevel::Error && m.1@ == error@,
    {
        let text = error.clone();
        self.error = Some(error);
        (MessageLevel::Error, text)
    }

    /// Starts a run from a clean state; returns the message logged.
    pub fn begin(&mut self) -> (m: (MessageLevel, String))
        requires
            !(old(self)@.stage is Running || old(self)@.stage is Cancelling),
        ensures
            final(self)@ == started_view(),
            m.0 == MessageLevel::Info && m.1@ == "Starting transcode"@,
    {
        *self = TranscodeRun::new();
        self.stage = Stage::Running;
        self.cancellable = true;
        (MessageLevel::Info, String::from_str("Starting transcode"))
    }

    /// Asks a running run to stop; returns the message logged, or `None` when there
    /// is nothing to cancel.
    pub fn cancel(&mut self) -> (m: Option<(MessageLevel, String)>)
        ensures
            old(self)@.cancellable ==> final(self)@ == (RunView { stage: Stage::Cancelling, ..old(self)@ }) && (m matches Some(
                (l, t),
            ) && l == MessageLevel::Info && t@ == "Cancellation requested"@),
            !old(self)@.cancellable ==> final(self)@ == old(self)@ && m is None,
    {
        if self.cancellable {
            self.stage = Stage::Cancelling;
            Some((MessageLevel::Info, String::from_str("Cancellation requested")))
        } else {
            None
        }
    }

    /// Applies one event of the run; returns the messages it logs.
    pub fn handle(&mut self, event: RunEvent) -> (r: Vec<(MessageLevel, String)>)
        requires
            counts_fit(old(self)@),
        ensures
            final(self)@ == event_step(old(self)@, event).0,
            r@.map_values(|m: (MessageLevel, String)| (m.0, m.1@)) == event_step(old(self)@, event).1,
    {
        let ghost e = event;
        let ghost v = self@;
        let mut out: Vec<(MessageLevel, String)> = Vec::new();
        match event {
            RunEvent::PhaseChanged(p) => {
                self.phase = Some(p);
                let label = if p == RunPhase::Planning {
                    "Preparing transcode"
                } else {
                    phase_label(Some(p))
                };
                out.push((MessageLevel::Info, String::from_str(label)));
            },
            RunEvent::BatchDiscovered { total, skipped } => {
                self.task_total = total;
                self.skipped = skipped;
                let text = String::from_str("Discovered ").concat(decimal_string(total as u64).as_str()).concat(
                    " video files; ",
                ).concat(decimal_string(skipped as u64).as_str()).concat(" skipped");
                out.push((MessageLevel::Info, text));
            },
            RunEvent::InputSkipped { input, error } => {
                let text = String::from_str("Skipped ").concat(input.as_str()).concat(": ").concat(error.as_str());
                let ghost row = (input@, ResultStatus::Skipped, Some(error@));
                self.results.push(TaskResult { name: input, status: ResultStatus::Skipped, error: Some(error) });
                assert(self@.results =~= v.results.push(row));
                out.push((MessageLevel::Warning, text));
            },
            RunEvent::TaskStarted { index, total, input, output } => {
                let text = String::from_str("Task ").concat(decimal_string(index as u64).as_str()).concat("/").concat(
                    decimal_string(total as u64).as_str(),
                ).concat(": ").concat(input.as_str());
                self.task_index = index;
                self.task_total = total;
                self.current_name = Some(input);
                self.current_output = output;
                self.notice = None;
                self.duration_us = None;
                self.progress = Progress::default();
                out.push((MessageLevel::Info, text));
            },
            RunEvent::Progress { duration_us, progress } => {
                self.duration_us = duration_us;
                self.progress = progress;
            },
            RunEvent::VmafFinished { output, outcome } => match outcome {
                VmafOutcome::Scored(score) => {
                    let notice = String::from_str("VMAF ").concat(score.as_str());
                    let text = String::from_str("VMAF ").concat(score.as_str()).concat(": ").concat(output.as_str());
                    self.notice = Some((MessageLevel::Info, notice));
                    out.push((MessageLevel::Info, text));
                },
                VmafOutcome::Failed(error) => {
                    self.notice = Some((MessageLevel::Warning, String::from_str("VMAF failed: ").concat(error.as_str())));
                },
                VmafOutcome::Cancelled => {
                    self.notice = Some((MessageLevel::Warning, String::from_str("VMAF cancelled")));
                },
            },
            RunEvent::Warning { message } => {
                self.notice = Some((MessageLevel::Warning, message.clone()));
                out.push((MessageLevel::Warning, message));
            },
            RunEvent::Error { message } => {
                self.notice = Some((MessageLevel::Error, message.clone()));
                out.push((MessageLevel::Error, message));
            },
            RunEvent::TaskFinished { input, total, status, error } => {
                let (level, label) = match status {
                    TaskStatus::Success => (MessageLevel::Info, "Completed"),
                    TaskStatus::Failure => (MessageLevel::Error, "Failed"),
                    TaskStatus::Cancelled => (MessageLevel::Warning, "Cancelled"),
                };
                let head = String::from_str(label).concat(": ").concat(input.as_str());
                let text = match &error {
                    Some(d) => head.concat(": ").concat(d.as_str()),
                    None => head,
                };
                match status {
                    TaskStatus::Success => self.succeeded = self.succeeded + 1,
                    TaskStatus::Failure => self.failed = self.failed + 1,
                    TaskStatus::Cancelled => {},
                }
                if status == TaskStatus::Success && total == 1 {
                    self.completed_output = opt_copy(&self.current_output);
                }
                if total == 1 || status != TaskStatus::Success {
                    let shown = match status {
                        TaskStatus::Success => ResultStatus::Success,
                        TaskStatus::Failure => ResultStatus::Failure,
                        TaskStatus::Cancelled => ResultStatus::Cancelled,
                    };
                    let ghost row = (input@, result_status(status), text_of(error));
                    self.results.push(TaskResult { name: input, status: shown, error });
                    assert(self@.results =~= v.results.push(row));
                }
                out.push((level, text));
            },
        }
        assert(self@ == event_step(v, e).0);
        assert(out@.map_values(|m: (MessageLevel, String)| (m.0, m.1@)) =~= event_step(v, e).1);
        out
    }

    /// Ends the run with the status the run reported and its outcome; returns the
    /// message logged.
    pub fn finish(&mut self, status: RunStatus, outcome: RunOutcome) -> (m: (MessageLevel, String))
        ensures
            final(self)@ == finish_step(old(self)@, status, outcome).0,
            (m.0, m.1@) == finish_step(old(self)@, status, outcome).1,
    {
        let ghost v = self@;
        let ghost o = outcome;
        self.stage = Stage::Finished(status);
        self.cancellable = false;
        let failure = match outcome {
            RunOutcome::Failed(detail) => {
                self.error = Some(detail.clone());
                Some(detail)
            },
            RunOutcome::Batch { total, succeeded, failed } => {
                self.task_total = total;
                self.succeeded = succeeded;
                self.failed = failed;
                None
            },
            RunOutcome::Completed | RunOutcome::Cancelled => None,
        };
        let (level, label) = match status {
            RunStatus::Success => (MessageLevel::Info, "Run completed"),
            RunStatus::Failure => (MessageLevel::Error, "Run failed"),
            RunStatus::Cancelled => (MessageLevel::Warning, "Run cancelled"),
        };
        let text = match failure {
            Some(d) => String::from_str(label).concat(": ").concat(d.as_str()),
            None => String::from_str(label),
        };
        assert(self@ == finish_step(v, status, o).0);
        (level, text)
    }

    /// Where the run is.
    pub fn stage(&self) -> (r: Stage)
        ensures
            r == self@.stage,
    {
        self.stage
    }

    /// What the status bar shows of this run: nothing before it starts, its step and
    /// task position while it runs.
    pub fn activity(&self) -> (r: Option<Activity>)
        ensures
            match self@.stage {
                Stage::Idle => r is None,
                Stage::Running => r matches Some(Activity::Running(t)) && t@ == transcode_running_text(
                    self@.phase,
                    self@.task_index,
                    self@.task_total,
                ),
                Stage::Cancelling => r matches Some(Activity::Cancelling),
                Stage::Finished(s) => r matches Some(Activity::Finished(x)) && x == s,
            },
    {
        match self.stage {
            Stage::Idle => None,
            Stage::Running => {
                let label = String::from_str(transcode_phase_label(self.phase));
                let label = if self.task_index > 0 {
                    label.concat(" · ").concat(decimal_string(self.task_index as u64).as_str()).concat("/").concat(
                        decimal_string(self.task_total as u64).as_str(),
                    )
                } else {
                    label
                };
                Some(Activity::Running(label))
            },
            Stage::Cancelling => Some(Activity::Cancelling),
            Stage::Finished(s) => Some(Activity::Finished(s)),
        }
    }

    /// The step the run reported last.
    pub fn phase(&self) -> (r: Option<RunPhase>)
        ensures
            r == self@.phase,
    {
        self.phase
    }

    /// The error that ended the run or refused its settings.
    pub fn error(&self) -> (r: Option<&str>)
        ensures
            match r {
                Some(e) => self@.error == Some(e@),
                None => self@.error is None,
            },
    {
        match &self.error {
            Some(e) => Some(e.as_str()),
            None => None,
        }
    }

    /// The latest warning, error or VMAF result of the current task.
    pub fn notice(&self) -> (r: Option<(MessageLevel, &str)>)
        ensures
            match r {
                Some((l, t)) => self@.notice == Some((l, t@)),
                None => self@.notice is None,
            },
    {
        match &self.notice {
            Some((l, t)) => Some((*l, t.as_str())),
            None => None,
        }
    }

    /// The current task's position and the number of tasks.
    pub fn task_position(&self) -> (r: (usize, usize))
        ensures
            r.0 == self@.task_index && r.1 == self@.task_total,
    {
        (self.task_index, self.task_total)
    }

    /// Tasks that succeeded, failed, and inputs that were skipped.
    pub fn counts(&self) -> (r: (usize, usize, usize))
        ensures
            r.0 == self@.succeeded && r.1 == self@.failed && r.2 == self@.skipped,
    {
        (self.succeeded, self.failed, self.skipped)
    }

    /// The input of the current task.
    pub fn current_name(&self) -> (r: Option<&str>)
        ensures
            match r {
                Some(n) => self@.current_name == Some(n@),
                None => self@.current_name is None,
            },
    {
        match &self.current_name {
            Some(n) => Some(n.as_str()),
            None => None,
        }
    }

    /// The output of a run of one task that succeeded.
    pub fn completed_output(&self) -> (r: Option<&str>)
        ensures
            match r {
                Some(n) => self@.completed_output == Some(n@),
                None => self@.completed_output is None,
            },
    {
        match &self.completed_output {
            Some(n) => Some(n.as_str()),
            None => None,
        }
    }

    /// The media duration of the current task, in microseconds, and its latest progress.
    pub fn progress(&self) -> (r: (Option<u64>, &Progress))
        ensures
            r.0 == self@.duration_us && r.1@ == self@.progress,
    {
        (self.duration_us, &self.progress)
    }

    /// The results list.
    pub fn results(&self) -> (r: &[TaskResult])
        ensures
            r@.map_values(|t: TaskResult| (t.name@, t.status, text_of(t.error))) == self@.results,
    {
        self.results.as_slice()
    }
}

} // verus!
