//! The state of an emulation run as the workspace shows it: the point being
//! predicted, the points done, and the charts. What a point measured is carried as
//! it is.
use vstd::prelude::*;
use vstd::string::*;
use crate::messages::MessageLevel;
use crate::predict_run::Activity;
use crate::text::{decimal, decimal_string};
use crate::transcode_run::{
    phase_label, phase_text, text_of, with_detail, LogLine, RunOutcome, RunPhase, RunStatus, Stage, TaskStatus,
};

verus! {

/// The point being predicted: its position, candidate, label, quality option and value.
#[derive(Debug)]
pub struct CurrentPoint {
    pub index: usize,
    pub candidate: Option<usize>,
    pub label: String,
    pub parameter: String,
    pub quality: u8,
}

/// A predicted point: where it came from, how it ended and what it measured.
#[derive(Debug)]
pub struct EmulationPoint<M> {
    pub candidate: Option<usize>,
    pub label: String,
    pub parameter: String,
    pub quality: u8,
    pub status: TaskStatus,
    pub measured: M,
    pub error: Option<String>,
}

/// What an emulation run reports while it works.
#[derive(Debug)]
pub enum EmulateEvent<M> {
    PhaseChanged(RunPhase),
    PointStarted { index: usize, total: usize, candidate: Option<usize>, label: String, parameter: String, quality: u8 },
    PointFinished {
        index: usize,
        total: usize,
        candidate: Option<usize>,
        quality: u8,
        status: TaskStatus,
        measured: M,
        error: Option<String>,
    },
    ChartRendered { png: Option<String>, svg: Option<String> },
    Warning { message: String },
    Error { message: String },
}

/// A point as plain values.
pub type PointView<M> = (Option<usize>, Seq<char>, Seq<char>, u8, TaskStatus, M, Option<Seq<char>>);

/// The emulation run state as plain values.
pub struct EmulateView<M> {
    pub stage: Stage,
    pub cancellable: bool,
    pub error: Option<Seq<char>>,
    pub phase: Option<RunPhase>,
    pub current: Option<(usize, Option<usize>, Seq<char>, Seq<char>, u8)>,
    pub total: nat,
    pub succeeded: nat,
    pub failed: nat,
    pub points: Seq<PointView<M>>,
    pub charts: Seq<Seq<char>>,
}

/// The state of an emulation run.
#[derive(Debug)]
pub struct EmulateRun<M> {
    stage: Stage,
    cancellable: bool,
    error: Option<String>,
    phase: Option<RunPhase>,
    current: Option<CurrentPoint>,
    total: usize,
    succeeded: usize,
    failed: usize,
    points: Vec<EmulationPoint<M>>,
    charts: Vec<String>,
}

/// The view of the current point.
pub open spec fn current_view(c: Option<CurrentPoint>) -> Option<(usize, Option<usize>, Seq<char>, Seq<char>, u8)> {
    match c {
        Some(p) => Some((p.index, p.candidate, p.label@, p.parameter@, p.quality)),
        None => None,
    }
}

/// The chart paths of a render: the PNG, then the SVG, each when written.
pub open spec fn chart_list(png: Option<String>, svg: Option<String>) -> Seq<Seq<char>> {
    (match png {
        Some(p) => seq![p@],
        None => Seq::<Seq<char>>::empty(),
    }) + (match svg {
        Some(s) => seq![s@],
        None => Seq::<Seq<char>>::empty(),
    })
}

impl<M> View for EmulateRun<M> {
    type V = EmulateView<M>;

    closed spec fn view(&self) -> EmulateView<M> {
        EmulateView {
            stage: self.stage,
            cancellable: self.cancellable,
            error: text_of(self.error),
            phase: self.phase,
            current: current_view(self.current),
            total: self.total as nat,
            succeeded: self.succeeded as nat,
            failed: self.failed as nat,
            points: self.points@.map_values(
                |p: EmulationPoint<M>| (p.candidate, p.label@, p.parameter@, p.quality, p.status, p.measured, text_of(p.error)),
            ),
            charts: self.charts@.map_values(|s: String| s@),
        }
    }
}

/// An emulation run that has not started.
pub open spec fn idle_emulation<M>() -> EmulateView<M> {
    EmulateView {
        stage: Stage::Idle,
        cancellable: false,
        error: None,
        phase: None,
        current: None,
        total: 0,
        succeeded: 0,
        failed: 0,
        points: seq![],
        charts: seq![],
    }
}

/// Whether `e` can be applied to `v`: a point finishes only after it started, and
/// the counters have room.
pub open spec fn emulate_ready<M>(v: EmulateView<M>, e: EmulateEvent<M>) -> bool {
    &&& e is PointFinished ==> v.current is Some
    &&& v.succeeded < usize::MAX
    &&& v.failed < usize::MAX
}

/// The state after `e` and the messages it logs.
pub open spec fn emulate_step<M>(v: EmulateView<M>, e: EmulateEvent<M>) -> (EmulateView<M>, Seq<LogLine>) {
    match e {
        EmulateEvent::PhaseChanged(p) => (EmulateView { phase: Some(p), ..v }, seq![]),
        EmulateEvent::PointStarted { index, total, candidate, label, parameter, quality } => (
            EmulateView { total: total as nat, current: Some((index, candidate, label@, parameter@, quality)), ..v },
            seq![],
        ),
        EmulateEvent::PointFinished { total, candidate, quality, status, measured, error, .. } => {
            let c = v.current.unwrap();
            (
                EmulateView {
                    current: None,
                    total: total as nat,
                    succeeded: if status == TaskStatus::Success {
                        v.succeeded + 1
                    } else {
                        v.succeeded
                    },
                    failed: if status == TaskStatus::Failure {
                        v.failed + 1
                    } else {
                        v.failed
                    },
                    points: v.points.push((candidate, c.2, c.3, quality, status, measured, text_of(error))),
                    ..v
                },
                match error {
                    Some(m) => seq![(MessageLevel::Error, c.3 + " "@ + decimal(quality as nat) + ": "@ + m@)],
                    None => seq![],
                },
            )
        },
        EmulateEvent::ChartRendered { png, svg } => (EmulateView { charts: chart_list(png, svg), ..v }, seq![]),
        EmulateEvent::Warning { message } => (v, seq![(MessageLevel::Warning, message@)]),
        EmulateEvent::Error { message } => (v, seq![(MessageLevel::Error, message@)]),
    }
}

/// The label of a finished emulation run.
pub open spec fn emulation_label(status: RunStatus) -> LogLine {
    match status {
        RunStatus::Success => (MessageLevel::Info, "Chart generated"@),
        RunStatus::Failure => (MessageLevel::Error, "Emulation failed"@),
        RunStatus::Cancelled => (MessageLevel::Warning, "Emulation cancelled"@),
    }
}

/// The state after the run ended with `status` and `outcome`, and the message it logs.
pub open spec fn emulate_finish<M>(v: EmulateView<M>, status: RunStatus, outcome: RunOutcome) -> (EmulateView<M>, LogLine) {
    let w = EmulateView {
        stage: Stage::Finished(status),
        cancellable: false,
        current: None,
        error: match outcome {
            RunOutcome::Failed(d) => Some(d@),
            _ => v.error,
        },
        ..v
    };
    (w, (emulation_label(status).0, with_detail(emulation_label(status).1, w.error)))
}

impl<M> EmulateRun<M> {
    /// A run that has not started.
    pub fn new() -> (r: EmulateRun<M>)
        ensures
            r@ == idle_emulation::<M>(),
    {
        let r = EmulateRun {
            stage: Stage::Idle,
            cancellable: false,
            error: None,
            phase: None,
            current: None,
            total: 0,
            succeeded: 0,
            failed: 0,
            points: Vec::new(),
            charts: Vec::new(),
        };
        assert(r@.points =~= Seq::<PointView<M>>::empty());
        assert(r@.charts =~= Seq::<Seq<char>>::empty());
        r
    }

    /// Whether a new run may start: none is running or being cancelled.
    pub fn can_start(&self) -> (r: bool)
        ensures
            r == !(self@.stage is Running || self@.stage is Cancelling),
    {
        match self.stage {
            Stage::Running | Stage::Cancelling => false,
            _ => true,
        }
    }

    /// Records that the run's settings were refused with `error`.
    pub fn refuse(&mut self, error: String)
        ensures
            final(self)@ == (EmulateView { error: Some(error@), ..old(self)@ }),
    {
        self.error = Some(error);
    }

    /// Starts a run from a clean state; returns the message logged.
    pub fn begin(&mut self) -> (m: (MessageLevel, String))
        requires
            !(old(self)@.stage is Running || old(self)@.stage is Cancelling),
        ensures
            final(self)@ == (EmulateView { stage: Stage::Running, cancellable: true, ..idle_emulation::<M>() }),
            m.0 == MessageLevel::Info && m.1@ == "Starting emulation"@,
    {
        *self = EmulateRun::new();
        self.stage = Stage::Running;
        self.cancellable = true;
        (MessageLevel::Info, String::from_str("Starting emulation"))
    }

    /// Asks a running run to stop; returns the message logged, or `None` when there
    /// is nothing to cancel.
    pub fn cancel(&mut self) -> (m: Option<(MessageLevel, String)>)
        ensures
            old(self)@.cancellable ==> final(self)@ == (EmulateView { stage: Stage::Cancelling, ..old(self)@ }) && (m matches Some(
                (l, t),
            ) && l == MessageLevel::Info && t@ == "Cancellation requested"@),
            !old(self)@.cancellable ==> final(self)@ == old(self)@ && m is None,
    {
        if self.cancellable {
            self.stage = Stage::Cancelling;
            Some((MessageLevel::Info, String::from_str("Cancellation requested")))
        } else {
            None
        }
    }

    /// Whether `event` can be applied now.
    pub fn accepts(&self, event: &EmulateEvent<M>) -> (r: bool)
        ensures
            r == emulate_ready(self@, *event),
    {
        let finished = match event {
            EmulateEvent::PointFinished { .. } => true,
            _ => false,
        };
        (!finished || self.current.is_some()) && self.succeeded < usize::MAX && self.failed < usize::MAX
    }

    /// Applies one event of the run; returns the messages it logs.
    pub fn handle(&mut self, event: EmulateEvent<M>) -> (r: Vec<(MessageLevel, String)>)
        requires
            emulate_ready(old(self)@, event),
        ensures
            final(self)@ == emulate_step(old(self)@, event).0,
            r@.map_values(|m: (MessageLevel, String)| (m.0, m.1@)) == emulate_step(old(self)@, event).1,
    {
        let ghost e = event;
        let ghost v = self@;
        let mut out: Vec<(MessageLevel, String)> = Vec::new();
        match event {
            EmulateEvent::PhaseChanged(p) => {
                self.phase = Some(p);
            },
            EmulateEvent::PointStarted { index, total, candidate, label, parameter, quality } => {
                self.total = total;
                self.current = Some(CurrentPoint { index, candidate, label, parameter, quality });
            },
            EmulateEvent::PointFinished { index, total, candidate, quality, status, measured, error } => {
                let current = match self.current.take() {
                    Some(c) => c,
                    None => {
                        return out;
                    },
                };
                self.total = total;
                if status == TaskStatus::Success {
                    self.succeeded = self.succeeded + 1;
                } else if status == TaskStatus::Failure {
                    self.failed = self.failed + 1;
                }
                match &error {
                    Some(m) => {
                        let text = String::from_str(current.parameter.as_str()).concat(" ").concat(
                            decimal_string(quality as u64).as_str(),
                        ).concat(": ").concat(m.as_str());
                        out.push((MessageLevel::Error, text));
                    },
                    None => {},
                }
                let ghost row = (candidate, current.label@, current.parameter@, quality, status, measured, text_of(error));
                self.points.push(
                    EmulationPoint {
                        candidate,
                        label: current.label,
                        parameter: current.parameter,
                        quality,
                        status,
                        measured,
                        error,
                    },
                );
                assert(self@.points =~= v.points.push(row));
            },
            EmulateEvent::ChartRendered { png, svg } => {
                let mut charts: Vec<String> = Vec::new();
                match png {
                    Some(p) => charts.push(p),
                    None => {},
                }
                match svg {
                    Some(s) => charts.push(s),
                    None => {},
                }
                self.charts = charts;
                assert(self@.charts =~= chart_list(e->png, e->svg));
            },
            EmulateEvent::Warning { message } => {
                out.push((MessageLevel::Warning, message));
            },
            EmulateEvent::Error { message } => {
                out.push((MessageLevel::Error, message));
            },
        }
        assert(self@ == emulate_step(v, e).0);
        assert(out@.map_values(|m: (MessageLevel, String)| (m.0, m.1@)) =~= emulate_step(v, e).1);
        out
    }

    /// Ends the run with the status the run reported and its outcome; returns the
    /// message logged.
    pub fn finish(&mut self, status: RunStatus, outcome: RunOutcome) -> (m: (MessageLevel, String))
        ensures
            final(self)@ == emulate_finish(old(self)@, status, outcome).0,
            (m.0, m.1@) == emulate_finish(old(self)@, status, outcome).1,
    {
        let ghost v = self@;
        let ghost o = outcome;
        self.stage = Stage::Finished(status);
        self.cancellable = false;
        self.current = None;
        match outcome {
            RunOutcome::Failed(detail) => {
                self.error = Some(detail);
            },
            _ => {},
        }
        let (level, label) = match status {
            RunStatus::Success => (MessageLevel::Info, "Chart generated"),
            RunStatus::Failure => (MessageLevel::Error, "Emulation failed"),
            RunStatus::Cancelled => (MessageLevel::Warning, "Emulation cancelled"),
        };
        let text = match &self.error {
            Some(d) => String::from_str(label).concat(": ").concat(d.as_str()),
            None => String::from_str(label),
        };
        assert(self@ == emulate_finish(v, status, o).0);
        (level, text)
    }

    /// What the status bar shows of this run: nothing before it starts, its step,
    /// the points done and their total while it runs.
    pub fn activity(&self) -> (r: Option<Activity>)
        ensures
            match self@.stage {
                Stage::Idle => r is None,
                Stage::Running => r matches Some(Activity::Running(t)) && t@ == phase_text(self@.phase) + " · "@
                    + decimal(self@.points.len()) + "/"@ + decimal(self@.total),
                Stage::Cancelling => r matches Some(Activity::Cancelling),
                Stage::Finished(s) => r matches Some(Activity::Finished(x)) && x == s,
            },
    {
        match self.stage {
            Stage::Idle => None,
            Stage::Running => Some(
                Activity::Running(
                    String::from_str(phase_label(self.phase)).concat(" · ").concat(
                        decimal_string(self.points.len() as u64).as_str(),
                    ).concat("/").concat(decimal_string(self.total as u64).as_str()),
                ),
            ),
            Stage::Cancelling => Some(Activity::Cancelling),
            Stage::Finished(s) => Some(Activity::Finished(s)),
        }
    }

    /// Where the run is.
    pub fn stage(&self) -> (r: Stage)
        ensures
            r == self@.stage,
    {
        self.stage
    }

    /// The points predicted so far.
    pub fn points(&self) -> (r: &[EmulationPoint<M>])
        ensures
            r@.map_values(
                |p: EmulationPoint<M>| (p.candidate, p.label@, p.parameter@, p.quality, p.status, p.measured, text_of(p.error)),
            ) == self@.points,
    {
        self.points.as_slice()
    }

    /// The charts the run rendered.
    pub fn charts(&self) -> (r: &[String])
        ensures
            r@.map_values(|s: String| s@) == self@.charts,
    {
        self.charts.as_slice()
    }
}

} // verus!
