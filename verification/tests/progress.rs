use yog::progress::{Progress, ProgressParser};

fn assert_pending(parser: &mut ProgressParser, line: &str) {
    assert!(parser.push_line(line).is_none());
}

fn number(text: &Option<String>) -> Option<f64> {
    text.as_deref().and_then(|t| t.parse::<f64>().ok()).filter(|n| n.is_finite())
}

fn progress_with_time(value: &str) -> Progress {
    let mut parser = ProgressParser::new();
    parser.push_line(&format!("out_time_us={value}"));
    parser.push_line("speed=N/A");
    parser.push_line("fps=N/A");
    parser.push_line("progress=continue").unwrap()
}

#[test]
fn records_are_delimited_and_missing_fields_do_not_leak() {
    let mut parser = ProgressParser::new();
    assert_pending(&mut parser, "frame=23");
    assert_pending(&mut parser, "fps=24.5");
    assert_pending(&mut parser, "speed=   2x");
    assert_pending(&mut parser, "out_time_us=1250000");
    assert_pending(&mut parser, "out_time_ms=1250000");
    assert_pending(&mut parser, "out_time=00:00:01.250000");
    assert_pending(&mut parser, "stream_0_0_q=18.0");
    assert_pending(&mut parser, "total_size=100");
    assert_pending(&mut parser, "dup_frames=1");
    let first = parser.push_line("progress=continue").unwrap();
    assert_eq!(first.out_time_us, Some(1_250_000));
    assert_eq!(number(&first.speed), Some(2.0));
    assert!(!first.finished);
    let last = parser.push_line("progress=end").unwrap();
    assert!(last.finished);
    assert_eq!(last.frame, None);
    assert_eq!(last.fps, None);
    assert_eq!(last.speed, None);
    assert_eq!(last.total_size, None);
    assert_eq!(last.out_time_us, None);
    assert_eq!(last.dup_frames, None);
    assert_eq!(last.drop_frames, None);
}

#[test]
fn signed_zero_and_unavailable_times_are_distinct() {
    let negative = progress_with_time("-250000");
    assert_eq!(negative.out_time_us, Some(-250_000));
    assert_eq!(number(&negative.speed), None);
    assert_eq!(number(&negative.fps), None);

    let zero = progress_with_time("0");
    assert_eq!(zero.out_time_us, Some(0));
    assert_eq!(number(&zero.speed), None);
    assert_eq!(number(&zero.fps), None);

    let unavailable = progress_with_time("N/A");
    assert_eq!(unavailable.out_time_us, None);
    assert_eq!(number(&unavailable.speed), None);
    assert_eq!(number(&unavailable.fps), None);
}

#[test]
fn unknown_progress_values_discard_the_record() {
    let mut parser = ProgressParser::new();
    assert_pending(&mut parser, "frame=5");
    assert!(parser.push_line("progress=maybe").is_none());
    let next = parser.push_line("progress=continue").unwrap();
    assert_eq!(next.frame, None);
    assert_eq!(next.total_size, None);
    assert!(parser.push_line("no equals sign").is_none());
    assert_pending(&mut parser, "  total_size= 42 ");
    assert_pending(&mut parser, "frame =7");
    let last = parser.push_line("progress=end").unwrap();
    assert_eq!(last.total_size, Some(42));
    assert_eq!(last.frame, None, "keys are not trimmed inside the line");
}
