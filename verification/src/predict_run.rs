//! The state of a prediction run as the workspace shows it: each event the run
//! reports changes it and may add a message to the log. What a prediction holds is
//! carried as it is.
use vstd::prelude::*;
use vstd::string::*;
use crate::messages::MessageLevel;
use crate::text::decimal_string;
use crate::transcode_run::{
    phase_label, phase_text, text_of, with_detail, LogLine, RunOutcome, RunPhase, RunStatus, Stage, TaskStatus,
};

verus! {

/// What a prediction run reports while it works.
#[derive(Debug)]
pub enum PredictEvent<P> {
    PhaseChanged(RunPhase),
    BatchDiscovered { total: usize, skipped: usize },
    InputSkipped { input: String, error: String },
    TaskStarted { index: usize, total: usize, input: String },
    PredictionCompleted { input: String, prediction: P },
    TaskFinished { input: String, status: TaskStatus, error: Option<String> },
    Warning { message: String },
    Error { message: String },
}

/// One line of the results list: an input and its prediction or its error.
#[derive(Debug)]
pub struct PredictionRow<P> {
    pub path: String,
    pub prediction: Option<P>,
    pub error: Option<String>,
}

/// What the workspace shows of a page's run in its status bar.
#[derive(Debug)]
pub enum Activity {
    Running(String),
    Cancelling,
    Finished(RunStatus),
}

/// The prediction run state as plain values.
pub struct PredictView<P> {
    pub stage: Stage,
    pub cancellable: bool,
    pub error: Option<Seq<char>>,
    pub phase: Option<RunPhase>,
    pub task_index: nat,
    pub task_total: nat,
    pub current_name: Option<Seq<char>>,
    pub completed: nat,
    pub failed: nat,
    pub skipped: nat,
    pub results: Seq<(Seq<char>, Option<P>, Option<Seq<char>>)>,
}

/// The state of a prediction run.
#[derive(Debug)]
pub struct PredictRun<P> {
    stage: Stage,
    cancellable: bool,
    error: Option<String>,
    phase: Option<RunPhase>,
    task_index: usize,
    task_total: usize,
    current_name: Option<String>,
    completed: usize,
    failed: usize,
    skipped: usize,
    results: Vec<PredictionRow<P>>,
}

impl<P> View for PredictRun<P> {
    type V = PredictView<P>;

    closed spec fn view(&self) -> PredictView<P> {
        PredictView {
            stage: self.stage,
            cancellable: self.cancellable,
            error: text_of(self.error),
            phase: self.phase,
            task_index: self.task_index as nat,
            task_total: self.task_total as nat,
            current_name: text_of(self.current_name),
            completed: self.completed as nat,
            failed: self.failed as nat,
            skipped: self.skipped as nat,
            results: self.results@.map_values(|r: PredictionRow<P>| (r.path@, r.prediction, text_of(r.error))),
        }
    }
}

/// A prediction run that has not started.
pub open spec fn idle_prediction<P>() -> PredictView<P> {
    PredictView {
        stage: Stage::Idle,
        cancellable: false,
        error: None,
        phase: None,
        task_index: 0,
        task_total: 1,
        current_name: None,
        completed: 0,
        failed: 0,
        skipped: 0,
        results: seq![],
    }
}

/// The state after `e` and the messages it logs.
pub open spec fn predict_step<P>(v: PredictView<P>, e: PredictEvent<P>) -> (PredictView<P>, Seq<LogLine>) {
    match e {
        PredictEvent::PhaseChanged(p) => (PredictView { phase: Some(p), ..v }, seq![]),
        PredictEvent::BatchDiscovered { total, skipped } => (
            PredictView { task_total: total as nat, skipped: skipped as nat, ..v },
            seq![],
        ),
        PredictEvent::InputSkipped { input, error } => (
            PredictView { results: v.results.push((input@, None, Some(error@))), ..v },
            seq![(MessageLevel::Warning, "Skipped "@ + input@ + ": "@ + error@)],
        ),
        PredictEvent::TaskStarted { index, total, input } => (
            PredictView { task_index: index as nat, task_total: total as nat, current_name: Some(input@), ..v },
            seq![],
        ),
        PredictEvent::PredictionCompleted { input, prediction } => (
            PredictView { results: v.results.push((input@, Some(prediction), None)), ..v },
            seq![],
        ),
        PredictEvent::TaskFinished { input, status, error } => (
            PredictView {
                completed: if status == TaskStatus::Success {
                    v.completed + 1
                } else {
                    v.completed
                },
                failed: if status == TaskStatus::Failure {
                    v.failed + 1
                } else {
                    v.failed
                },
                results: match error {
                    Some(m) => v.results.push((input@, None, Some(m@))),
                    None => v.results,
                },
                ..v
            },
            match error {
                Some(m) => seq![(MessageLevel::Error, input@ + ": "@ + m@)],
                None => seq![],
            },
        ),
        PredictEvent::Warning { message } => (v, seq![(MessageLevel::Warning, message@)]),
        PredictEvent::Error { message } => (v, seq![(MessageLevel::Error, message@)]),
    }
}

/// The label of a finished prediction run.
pub open spec fn prediction_label(status: RunStatus) -> LogLine {
    match status {
        RunStatus::Success => (MessageLevel::Info, "Prediction completed"@),
        RunStatus::Failure => (MessageLevel::Error, "Prediction failed"@),
        RunStatus::Cancelled => (MessageLevel::Warning, "Prediction cancelled"@),
    }
}

/// The state after the run ended with `status` and `outcome`, and the message it logs:
/// the label, with the run's error when it has one.
pub open spec fn predict_finish<P>(v: PredictView<P>, status: RunStatus, outcome: RunOutcome) -> (PredictView<P>, LogLine) {
    let w = PredictView { stage: Stage::Finished(status), cancellable: false, ..v };
    let w = match outcome {
        RunOutcome::Failed(d) => PredictView { error: Some(d@), ..w },
        RunOutcome::Batch { total, succeeded, failed } => PredictView {
            task_total: total as nat,
            completed: succeeded as nat,
            failed: failed as nat,
            ..w
        },
        _ => w,
    };
    (w, (prediction_label(status).0, with_detail(prediction_label(status).1, w.error)))
}

/// The status-bar text of a running prediction: its step and task position.
pub open spec fn running_text(phase: Option<RunPhase>, index: nat, total: nat) -> Seq<char> {
    phase_text(phase) + " · "@ + crate::text::decimal(index) + "/"@ + crate::text::decimal(total)
}

impl<P> PredictRun<P> {
    /// A run that has not started.
    pub fn new() -> (r: PredictRun<P>)
        ensures
            r@ == idle_prediction::<P>(),
    {
        let r = PredictRun {
            stage: Stage::Idle,
            cancellable: false,
            error: None,
            phase: None,
            task_index: 0,
            task_total: 1,
            current_name: None,
            completed: 0,
            failed: 0,
            skipped: 0,
            results: Vec::new(),
        };
        assert(r@.results =~= Seq::<(Seq<char>, Option<P>, Option<Seq<char>>)>::empty());
        r
    }

    /// Whether a new run may start: none is running or being cancelled.
    pub fn can_start(&self) -> (r: bool)
        ensures
            r == !(self@.stage is Running || self@.stage is Cancelling),
    {
        match self.stage {
            Stage::Running | Stage::Cancelling => false,
            _ => true,
        }
    }

    /// Records that the run's settings were refused with `error`.
    pub fn refuse(&mut self, error: String)
        ensures
            final(self)@ == (PredictView { error: Some(error@), ..old(self)@ }),
    {
        self.error = Some(error);
    }

    /// Starts a run from a clean state; returns the message logged.
    pub fn begin(&mut self) -> (m: (MessageLevel, String))
        requires
            !(old(self)@.stage is Running || old(self)@.stage is Cancelling),
        ensures
            final(self)@ == (PredictView { stage: Stage::Running, cancellable: true, ..idle_prediction::<P>() }),
            m.0 == MessageLevel::Info && m.1@ == "Starting prediction"@,
    {
        *self = PredictRun::new();
        self.stage = Stage::Running;
        self.cancellable = true;
        (MessageLevel::Info, String::from_str("Starting prediction"))
    }

    /// Asks a running run to stop; returns the message logged, or `None` when there
    /// is nothing to cancel.
    pub fn cancel(&mut self) -> (m: Option<(MessageLevel, String)>)
        ensures
            old(self)@.cancellable ==> final(self)@ == (PredictView { stage: Stage::Cancelling, ..old(self)@ }) && (m matches Some(
                (l, t),
            ) && l == MessageLevel::Info && t@ == "Cancellation requested"@),
            !old(self)@.cancellable ==> final(self)@ == old(self)@ && m is None,
    {
        if self.cancellable {
            self.stage = Stage::Cancelling;
            Some((MessageLevel::Info, String::from_str("Cancellation requested")))
        } else {
            None
        }
    }

    /// Applies one event of the run; returns the messages it logs.
    pub fn handle(&mut self, event: PredictEvent<P>) -> (r: Vec<(MessageLevel, String)>)
        requires
            old(self)@.completed < usize::MAX,
            old(self)@.failed < usize::MAX,
        ensures
            final(self)@ == predict_step(old(self)@, event).0,
            r@.map_values(|m: (MessageLevel, String)| (m.0, m.1@)) == predict_step(old(self)@, event).1,
    {
        let ghost e = event;
        let ghost v = self@;
        let mut out: Vec<(MessageLevel, String)> = Vec::new();
        match event {
            PredictEvent::PhaseChanged(p) => {
                self.phase = Some(p);
            },
            PredictEvent::BatchDiscovered { total, skipped } => {
                self.task_total = total;
                self.skipped = skipped;
            },
            PredictEvent::InputSkipped { input, error } => {
                let text = String::from_str("Skipped ").concat(input.as_str()).concat(": ").concat(error.as_str());
                let ghost row = (input@, None::<P>, Some(error@));
                self.results.push(PredictionRow { path: input, prediction: None, error: Some(error) });
                assert(self@.results =~= v.results.push(row));
                out.push((MessageLevel::Warning, text));
            },
            PredictEvent::TaskStarted { index, total, input } => {
                self.task_index = index;
                self.task_total = total;
                self.current_name = Some(input);
            },
            PredictEvent::PredictionCompleted { input, prediction } => {
                let ghost row = (input@, Some(prediction), None::<Seq<char>>);
                self.results.push(PredictionRow { path: input, prediction: Some(prediction), error: None });
                assert(self@.results =~= v.results.push(row));
            },
            PredictEvent::TaskFinished { input, status, error } => {
                if status == TaskStatus::Success {
                    self.completed = self.completed + 1;
                } else if status == TaskStatus::Failure {
                    self.failed = self.failed + 1;
                }
                match error {
                    Some(m) => {
                        let text = String::from_str(input.as_str()).concat(": ").concat(m.as_str());
                        let ghost row = (input@, None::<P>, Some(m@));
                        self.results.push(PredictionRow { path: input, prediction: None, error: Some(m) });
                        assert(self@.results =~= v.results.push(row));
                        out.push((MessageLevel::Error, text));
                    },
                    None => {},
                }
            },
            PredictEvent::Warning { message } => {
                out.push((MessageLevel::Warning, message));
            },
            PredictEvent::Error { message } => {
                out.push((MessageLevel::Error, message));
            },
        }
        assert(self@ == predict_step(v, e).0);
        assert(out@.map_values(|m: (MessageLevel, String)| (m.0, m.1@)) =~= predict_step(v, e).1);
        out
    }

    /// Ends the run with the status the run reported and its outcome; returns the
    /// message logged.
    pub fn finish(&mut self, status: RunStatus, outcome: RunOutcome) -> (m: (MessageLevel, String))
        ensures
            final(self)@ == predict_finish(old(self)@, status, outcome).0,
            (m.0, m.1@) == predict_finish(old(self)@, status, outcome).1,
    {
        let ghost v = self@;
        let ghost o = outcome;
        self.stage = Stage::Finished(status);
        self.cancellable = false;
        match outcome {
            RunOutcome::Failed(detail) => {
                self.error = Some(detail);
            },
            RunOutcome::Batch { total, succeeded, failed } => {
                self.task_total = total;
                self.completed = succeeded;
                self.failed = failed;
            },
            RunOutcome::Completed | RunOutcome::Cancelled => {},
        }
        let (level, label) = match status {
            RunStatus::Success => (MessageLevel::Info, "Prediction completed"),
            RunStatus::Failure => (MessageLevel::Error, "Prediction failed"),
            RunStatus::Cancelled => (MessageLevel::Warning, "Prediction cancelled"),
        };
        let text = match &self.error {
            Some(d) => String::from_str(label).concat(": ").concat(d.as_str()),
            None => String::from_str(label),
        };
        assert(self@ == predict_finish(v, status, o).0);
        (level, text)
    }

    /// What the status bar shows of this run: nothing before it starts, its step
    /// and task position while it runs.
    pub fn activity(&self) -> (r: Option<Activity>)
        ensures
            match self@.stage {
                Stage::Idle => r is None,
                Stage::Running => r matches Some(Activity::Running(t)) && t@ == running_text(
                    self@.phase,
                    self@.task_index,
                    self@.task_total,
                ),
                Stage::Cancelling => r matches Some(Activity::Cancelling),
                Stage::Finished(s) => r matches Some(Activity::Finished(x)) && x == s,
            },
    {
        match self.stage {
            Stage::Idle => None,
            Stage::Running => Some(
                Activity::Running(
                    String::from_str(phase_label(self.phase)).concat(" · ").concat(
                        decimal_string(self.task_index as u64).as_str(),
                    ).concat("/").concat(decimal_string(self.task_total as u64).as_str()),
                ),
            ),
            Stage::Cancelling => Some(Activity::Cancelling),
            Stage::Finished(s) => Some(Activity::Finished(s)),
        }
    }

    /// Where the run is.
    pub fn stage(&self) -> (r: Stage)
        ensures
            r == self@.stage,
    {
        self.stage
    }

    /// The error that ended the run or refused its settings.
    pub fn error(&self) -> (r: Option<&str>)
        ensures
            match r {
                Some(e) => self@.error == Some(e@),
                None => self@.error is None,
            },
    {
        match &self.error {
            Some(e) => Some(e.as_str()),
            None => None,
        }
    }

    /// Completed, failed and skipped inputs.
    pub fn counts(&self) -> (r: (usize, usize, usize))
        ensures
            r.0 == self@.completed && r.1 == self@.failed && r.2 == self@.skipped,
    {
        (self.completed, self.failed, self.skipped)
    }

    /// The results list.
    pub fn results(&self) -> (r: &[PredictionRow<P>])
        ensures
            r@.map_values(|t: PredictionRow<P>| (t.path@, t.prediction, text_of(t.error))) == self@.results,
    {
        self.results.as_slice()
    }
}

} // verus!
