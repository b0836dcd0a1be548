use yog::messages::MessageLevel;
use yog::predict_run::{Activity, PredictEvent, PredictRun};
use yog::transcode_run::{RunOutcome, RunPhase, RunStatus, Stage, TaskStatus};

#[test]
fn a_prediction_batch_keeps_predictions_and_errors_in_order() {
    let mut run: PredictRun<u64> = PredictRun::new();
    assert!(run.activity().is_none());
    assert_eq!(run.begin(), (MessageLevel::Info, "Starting prediction".to_string()));
    assert!(run.handle(PredictEvent::PhaseChanged(RunPhase::Predicting)).is_empty());
    assert!(run.handle(PredictEvent::BatchDiscovered { total: 3, skipped: 1 }).is_empty());
    assert!(run.handle(PredictEvent::TaskStarted { index: 1, total: 3, input: "a.mkv".to_string() }).is_empty());
    match run.activity() {
        Some(Activity::Running(label)) => assert_eq!(label, "Predicting · 1/3"),
        other => panic!("{other:?}"),
    }
    assert_eq!(
        run.handle(PredictEvent::InputSkipped { input: "x.txt".to_string(), error: "no video".to_string() }),
        vec![(MessageLevel::Warning, "Skipped x.txt: no video".to_string())]
    );
    assert!(run.handle(PredictEvent::PredictionCompleted { input: "a.mkv".to_string(), prediction: 42 }).is_empty());
    assert!(run
        .handle(PredictEvent::TaskFinished { input: "a.mkv".to_string(), status: TaskStatus::Success, error: None })
        .is_empty());
    assert_eq!(
        run.handle(PredictEvent::TaskFinished {
            input: "b.mkv".to_string(),
            status: TaskStatus::Failure,
            error: Some("no frames".to_string()),
        }),
        vec![(MessageLevel::Error, "b.mkv: no frames".to_string())]
    );
    assert_eq!(run.counts(), (1, 1, 1));
    let rows: Vec<(&str, Option<u64>, Option<&str>)> =
        run.results().iter().map(|r| (r.path.as_str(), r.prediction, r.error.as_deref())).collect();
    assert_eq!(rows, vec![("x.txt", None, Some("no video")), ("a.mkv", Some(42), None), ("b.mkv", None, Some("no frames"))]);
    assert_eq!(
        run.handle(PredictEvent::Warning { message: "slow".to_string() }),
        vec![(MessageLevel::Warning, "slow".to_string())]
    );
    assert_eq!(
        run.finish(RunStatus::Failure, RunOutcome::Batch { total: 2, succeeded: 1, failed: 1 }),
        (MessageLevel::Error, "Prediction failed".to_string())
    );
    assert_eq!(run.stage(), Stage::Finished(RunStatus::Failure));
    assert!(matches!(run.activity(), Some(Activity::Finished(RunStatus::Failure))));
}

#[test]
fn a_failed_or_cancelled_prediction_reports_why() {
    let mut run: PredictRun<()> = PredictRun::new();
    assert!(run.cancel().is_none());
    run.begin();
    assert_eq!(run.cancel(), Some((MessageLevel::Info, "Cancellation requested".to_string())));
    assert!(matches!(run.activity(), Some(Activity::Cancelling)));
    assert_eq!(
        run.finish(RunStatus::Failure, RunOutcome::Failed("libvmaf returned no VMAF score".to_string())),
        (MessageLevel::Error, "Prediction failed: libvmaf returned no VMAF score".to_string())
    );
    assert_eq!(run.error(), Some("libvmaf returned no VMAF score"));
    run.begin();
    assert_eq!(run.error(), None);
    assert_eq!(run.finish(RunStatus::Cancelled, RunOutcome::Cancelled), (MessageLevel::Warning, "Prediction cancelled".to_string()));
}
