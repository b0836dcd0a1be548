use yog::messages::MessageLevel;
use yog::predict_run::Activity;
use yog::progress::Progress;
use yog::transcode_run::{
    phase_label, ResultStatus, RunEvent, RunOutcome, RunPhase, RunStatus, Stage, TaskStatus, TranscodeRun,
    VmafOutcome,
};

fn texts(v: Vec<(MessageLevel, String)>) -> Vec<(MessageLevel, String)> {
    v
}

#[test]
fn phases_are_labelled_and_planning_is_preparing_the_transcode() {
    assert_eq!(phase_label(None), "Starting");
    assert_eq!(phase_label(Some(RunPhase::CalculatingVmaf)), "Calculating VMAF");
    assert_eq!(phase_label(Some(RunPhase::Planning)), "Preparing run");
    let mut run = TranscodeRun::new();
    run.begin();
    assert_eq!(
        texts(run.handle(RunEvent::PhaseChanged(RunPhase::Planning))),
        vec![(MessageLevel::Info, "Preparing transcode".to_string())]
    );
    assert_eq!(
        run.handle(RunEvent::PhaseChanged(RunPhase::Verifying)),
        vec![(MessageLevel::Info, "Verifying output".to_string())]
    );
}

#[test]
fn a_batch_logs_each_task_and_keeps_failures_in_the_results() {
    let mut run = TranscodeRun::new();
    assert!(run.can_start());
    assert_eq!(run.begin(), (MessageLevel::Info, "Starting transcode".to_string()));
    assert!(!run.can_start());
    assert_eq!(
        run.handle(RunEvent::BatchDiscovered { total: 2, skipped: 1 }),
        vec![(MessageLevel::Info, "Discovered 2 video files; 1 skipped".to_string())]
    );
    assert_eq!(
        run.handle(RunEvent::InputSkipped { input: "in/x.txt".to_string(), error: "not media".to_string() }),
        vec![(MessageLevel::Warning, "Skipped in/x.txt: not media".to_string())]
    );
    assert_eq!(
        run.handle(RunEvent::TaskStarted {
            index: 1,
            total: 2,
            input: "in/a.mkv".to_string(),
            output: Some("out/a.mkv".to_string()),
        }),
        vec![(MessageLevel::Info, "Task 1/2: in/a.mkv".to_string())]
    );
    assert_eq!(run.task_position(), (1, 2));
    assert_eq!(run.current_name(), Some("in/a.mkv"));
    let mut progress = Progress::default();
    progress.out_time_us = Some(50_000_000);
    assert!(run.handle(RunEvent::Progress { duration_us: Some(100_000_000), progress }).is_empty());
    assert_eq!(run.progress().0, Some(100_000_000));
    assert_eq!(run.progress().1.out_time_us, Some(50_000_000));
    assert_eq!(
        run.handle(RunEvent::TaskFinished {
            input: "in/a.mkv".to_string(),
            total: 2,
            status: TaskStatus::Success,
            error: None,
        }),
        vec![(MessageLevel::Info, "Completed: in/a.mkv".to_string())]
    );
    assert_eq!(
        run.handle(RunEvent::TaskFinished {
            input: "in/b.mkv".to_string(),
            total: 2,
            status: TaskStatus::Failure,
            error: Some("exit status 1".to_string()),
        }),
        vec![(MessageLevel::Error, "Failed: in/b.mkv: exit status 1".to_string())]
    );
    assert_eq!(run.counts(), (1, 1, 1));
    assert_eq!(run.completed_output(), None);
    let results: Vec<(&str, ResultStatus, Option<&str>)> =
        run.results().iter().map(|r| (r.name.as_str(), r.status, r.error.as_deref())).collect();
    assert_eq!(
        results,
        vec![
            ("in/x.txt", ResultStatus::Skipped, Some("not media")),
            ("in/b.mkv", ResultStatus::Failure, Some("exit status 1")),
        ]
    );
    assert_eq!(
        run.finish(RunStatus::Failure, RunOutcome::Batch { total: 2, succeeded: 1, failed: 1 }),
        (MessageLevel::Error, "Run failed".to_string())
    );
    assert_eq!(run.stage(), Stage::Finished(RunStatus::Failure));
    assert!(run.can_start());
    assert!(run.cancel().is_none());
}

#[test]
fn vmaf_warnings_and_errors_become_the_notice() {
    let mut run = TranscodeRun::new();
    run.begin();
    assert_eq!(
        run.handle(RunEvent::VmafFinished {
            output: "out.mkv".to_string(),
            outcome: VmafOutcome::Scored("97.25".to_string()),
        }),
        vec![(MessageLevel::Info, "VMAF 97.25: out.mkv".to_string())]
    );
    assert_eq!(run.notice(), Some((MessageLevel::Info, "VMAF 97.25")));
    assert!(run
        .handle(RunEvent::VmafFinished { output: "out.mkv".to_string(), outcome: VmafOutcome::Cancelled })
        .is_empty());
    assert_eq!(run.notice(), Some((MessageLevel::Warning, "VMAF cancelled")));
    assert_eq!(
        run.handle(RunEvent::Warning { message: "careful".to_string() }),
        vec![(MessageLevel::Warning, "careful".to_string())]
    );
    assert_eq!(
        run.handle(RunEvent::Error { message: "broken".to_string() }),
        vec![(MessageLevel::Error, "broken".to_string())]
    );
}

#[test]
fn cancellation_is_requested_once_and_a_failure_reports_its_detail() {
    let mut run = TranscodeRun::new();
    assert!(run.cancel().is_none());
    run.begin();
    assert_eq!(run.cancel(), Some((MessageLevel::Info, "Cancellation requested".to_string())));
    assert!(!run.can_start());
    assert_eq!(
        run.finish(RunStatus::Failure, RunOutcome::Failed("ffmpeg exited".to_string())),
        (MessageLevel::Error, "Run failed: ffmpeg exited".to_string())
    );
    assert_eq!(run.error(), Some("ffmpeg exited"));
    assert_eq!(run.finish(RunStatus::Cancelled, RunOutcome::Cancelled), (MessageLevel::Warning, "Run cancelled".to_string()));
    assert_eq!(run.refuse("Choose an output file or folder".to_string()), (MessageLevel::Error, "Choose an output file or folder".to_string()));
}

#[test]
fn a_single_successful_task_keeps_its_output_and_its_result() {
    let mut run = TranscodeRun::new();
    run.begin();
    run.handle(RunEvent::TaskStarted {
        index: 1,
        total: 1,
        input: "a.mkv".to_string(),
        output: Some("b.mkv".to_string()),
    });
    run.handle(RunEvent::TaskFinished { input: "a.mkv".to_string(), total: 1, status: TaskStatus::Success, error: None });
    assert_eq!(run.completed_output(), Some("b.mkv"));
    assert_eq!(run.results().len(), 1);
    assert_eq!(run.results()[0].status, ResultStatus::Success);
    assert_eq!(run.finish(RunStatus::Success, RunOutcome::Completed), (MessageLevel::Info, "Run completed".to_string()));
    assert_eq!(run.stage(), Stage::Finished(RunStatus::Success));
    assert_eq!(run.error(), None);
}

#[test]
fn a_running_transcode_shows_its_step_and_task_position() {
    let mut run = TranscodeRun::new();
    assert!(run.activity().is_none());
    run.begin();
    run.handle(RunEvent::PhaseChanged(RunPhase::Planning));
    assert!(matches!(run.activity(), Some(Activity::Running(ref t)) if t == "Preparing transcode"));
    run.handle(RunEvent::TaskStarted { index: 2, total: 8, input: "in/b.mkv".to_string(), output: None });
    run.handle(RunEvent::PhaseChanged(RunPhase::Transcoding));
    assert!(matches!(run.activity(), Some(Activity::Running(ref t)) if t == "Transcoding · 2/8"));
    run.cancel();
    assert!(matches!(run.activity(), Some(Activity::Cancelling)));
}
