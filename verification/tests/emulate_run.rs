use yog::emulate_run::{EmulateEvent, EmulateRun};
use yog::messages::MessageLevel;
use yog::predict_run::Activity;
use yog::transcode_run::{RunOutcome, RunPhase, RunStatus, Stage, TaskStatus};

fn started(index: usize, quality: u8) -> EmulateEvent<Option<u64>> {
    EmulateEvent::PointStarted {
        index,
        total: 3,
        candidate: None,
        label: "x264".to_string(),
        parameter: "CRF".to_string(),
        quality,
    }
}

#[test]
fn points_are_recorded_with_their_label_and_failures_are_logged() {
    let mut run: EmulateRun<Option<u64>> = EmulateRun::new();
    assert_eq!(run.begin(), (MessageLevel::Info, "Starting emulation".to_string()));
    let finish_early = EmulateEvent::PointFinished {
        index: 0,
        total: 3,
        candidate: None,
        quality: 20,
        status: TaskStatus::Success,
        measured: Some(1),
        error: None,
    };
    assert!(!run.accepts(&finish_early));
    run.handle(EmulateEvent::PhaseChanged(RunPhase::Predicting));
    run.handle(started(0, 20));
    match run.activity() {
        Some(Activity::Running(label)) => assert_eq!(label, "Predicting · 0/3"),
        other => panic!("{other:?}"),
    }
    assert!(run.accepts(&finish_early));
    assert!(run.handle(finish_early).is_empty());
    run.handle(started(1, 22));
    assert_eq!(
        run.handle(EmulateEvent::PointFinished {
            index: 1,
            total: 3,
            candidate: None,
            quality: 22,
            status: TaskStatus::Failure,
            measured: None,
            error: Some("libvmaf compared no frames".to_string()),
        }),
        vec![(MessageLevel::Error, "CRF 22: libvmaf compared no frames".to_string())]
    );
    let points: Vec<(u8, TaskStatus, Option<u64>)> = run.points().iter().map(|p| (p.quality, p.status, p.measured)).collect();
    assert_eq!(points, vec![(20, TaskStatus::Success, Some(1)), (22, TaskStatus::Failure, None)]);
    assert_eq!(run.points()[0].label, "x264");
    run.handle(EmulateEvent::ChartRendered { png: None, svg: Some("chart.svg".to_string()) });
    assert_eq!(run.charts(), ["chart.svg".to_string()]);
    assert_eq!(run.finish(RunStatus::Success, RunOutcome::Completed), (MessageLevel::Info, "Chart generated".to_string()));
    assert_eq!(run.stage(), Stage::Finished(RunStatus::Success));
}

#[test]
fn a_failed_emulation_reports_its_error() {
    let mut run: EmulateRun<()> = EmulateRun::new();
    run.begin();
    assert_eq!(
        run.finish(RunStatus::Failure, RunOutcome::Failed("input file does not exist".to_string())),
        (MessageLevel::Error, "Emulation failed: input file does not exist".to_string())
    );
    run.begin();
    assert!(run.cancel().is_some());
    assert_eq!(run.finish(RunStatus::Cancelled, RunOutcome::Cancelled), (MessageLevel::Warning, "Emulation cancelled".to_string()));
}
