use yog::messages::{complete_ffmpeg_lines, Filter, MessageLevel, MessageLog, MessageSource, NewMessage};

#[test]
fn ffmpeg_chunks_preserve_partial_lines_and_normalize_crlf() {
    let mut pending = String::new();
    let first = complete_ffmpeg_lines(&mut pending, "frame=1\n[error] inva");
    assert_eq!(first, ["frame=1"]);
    assert_eq!(pending, "[error] inva");

    let second = complete_ffmpeg_lines(&mut pending, "lid input\r\nlast line");
    assert_eq!(second, ["[error] invalid input"]);
    assert_eq!(pending, "last line");
}

#[test]
fn ffmpeg_filter_keeps_raw_lines_while_all_messages_identifies_their_source() {
    let message = NewMessage {
        source: MessageSource::Ffmpeg,
        level: MessageLevel::Debug,
        text: "frame=10".into(),
    };
    assert_eq!(Filter::Ffmpeg.display_line(&message), "frame=10\n");
    assert_eq!(Filter::All.display_line(&message), "[DEBUG] [FFmpeg] frame=10\n");
}

#[test]
fn chunked_output_gives_the_same_lines_as_whole_output() {
    let mut pending = String::new();
    let mut lines = complete_ffmpeg_lines(&mut pending, "a\r");
    lines.extend(complete_ffmpeg_lines(&mut pending, "\nb\n\nc"));
    let mut whole = String::new();
    let all = complete_ffmpeg_lines(&mut whole, "a\r\nb\n\nc");
    assert_eq!(lines, all);
    assert_eq!(lines, ["a", "b"]);
    assert_eq!(pending, whole);
    assert_eq!(pending, "c");
}

#[test]
fn filters_select_and_label_messages() {
    let warning = NewMessage { source: MessageSource::Program, level: MessageLevel::Warning, text: "careful".into() };
    assert!(Filter::Warnings.matches(&warning));
    assert!(!Filter::Errors.matches(&warning));
    assert!(Filter::Program.matches(&warning));
    assert_eq!(Filter::Program.display_line(&warning), "[WARN] careful\n");
    assert_eq!(Filter::Warnings.display_line(&warning), "[Program] careful\n");
    assert_eq!(Filter::from_label("Commands"), Filter::Commands);
    assert_eq!(MessageSource::Command.label(), "Command");
    assert_eq!(MessageLevel::Info.label(), "INFO");
}

#[test]
fn log_keeps_partial_ffmpeg_lines_until_finished() {
    let mut log = MessageLog::new();
    let shown = log.push(NewMessage { source: MessageSource::Ffmpeg, level: MessageLevel::Info, text: "one\ntw".into() });
    assert_eq!(shown, "[INFO] [FFmpeg] one\n");
    let shown = log.push(NewMessage { source: MessageSource::Program, level: MessageLevel::Error, text: "bad\n  \nworse".into() });
    assert_eq!(shown, "[ERROR] [Program] bad\n[ERROR] [Program] worse\n");
    assert_eq!(log.finish(), "[DEBUG] [FFmpeg] tw\n");
    assert_eq!(log.set_filter(Filter::Errors), "[Program] bad\n[Program] worse\n");
    log.clear();
    assert_eq!(log.text(), "");
}
