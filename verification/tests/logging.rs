use yog::messages::{accepts_record, message_for_record, MessageLevel, MessageSource, RecordLevel};

#[test]
fn logging_routes_command_and_ffmpeg_records_to_separate_sources() {
    let command = message_for_record(
        RecordLevel::Debug,
        "yog::command",
        "executing command: ffmpeg -i input".to_string(),
    )
    .unwrap();
    assert_eq!(command.source, MessageSource::Command);
    assert_eq!(command.text, "executing command: ffmpeg -i input");

    let ffmpeg = message_for_record(RecordLevel::Debug, "yog::ffmpeg", "frame=10\n".to_string()).unwrap();
    assert_eq!(ffmpeg.source, MessageSource::Ffmpeg);
    assert_eq!(ffmpeg.text, "frame=10\n");
}

#[test]
fn records_of_other_targets_or_at_trace_are_dropped() {
    assert!(message_for_record(RecordLevel::Info, "hyper::client", "connected".to_string()).is_none());
    assert!(message_for_record(RecordLevel::Trace, "yog::command", "detail".to_string()).is_none());
    assert!(!accepts_record(RecordLevel::Error, "yo"));
    assert!(accepts_record(RecordLevel::Error, "yog_core::ffprobe"));
    assert!(accepts_record(RecordLevel::Warn, "yog_runtime"));
}

#[test]
fn program_records_keep_their_level() {
    let warning = message_for_record(RecordLevel::Warn, "yog_core::plan", "careful".to_string()).unwrap();
    assert_eq!(warning.source, MessageSource::Program);
    assert_eq!(warning.level, MessageLevel::Warning);
    let error = message_for_record(RecordLevel::Error, "yog::workspace", "failed".to_string()).unwrap();
    assert_eq!(error.level, MessageLevel::Error);
    let info = message_for_record(RecordLevel::Info, "yog_runtime::task", "started".to_string()).unwrap();
    assert_eq!(info.level, MessageLevel::Info);
}
