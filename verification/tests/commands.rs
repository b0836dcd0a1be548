use yog::commands::{
    audio_frame_line, command_text, cover_extraction, encoder_help, join_path, probe_query, seek_decode, ProbeArg,
};

fn strings(v: &[&str]) -> Vec<String> {
    v.iter().map(|s| s.to_string()).collect()
}

#[test]
fn command_display_matches_the_debug_log_format() {
    let args = probe_query(
        vec![
            ProbeArg::ShowFormat,
            ProbeArg::ShowStreams,
            ProbeArg::ShowChapters,
            ProbeArg::ShowPrograms,
            ProbeArg::ShowPixelFormats,
        ],
        "/tmp/sample-1",
    );
    assert_eq!(
        command_text("ffprobe", &args),
        "ffprobe -v error -of json -show_error -show_format -show_streams -show_chapters -show_programs -show_pixel_formats -- /tmp/sample-1"
    );
}

#[test]
fn a_command_without_arguments_is_just_the_program() {
    assert_eq!(command_text("ffmpeg", &Vec::new()), "ffmpeg");
}

#[test]
fn probe_options_keep_their_order_and_values() {
    let args = probe_query(
        vec![
            ProbeArg::ShowPackets,
            ProbeArg::DataHash,
            ProbeArg::ShowEntries("packet=stream_index,data_hash".to_string()),
            ProbeArg::SelectStream(12),
            ProbeArg::ReadIntervals("%+#1".to_string()),
            ProbeArg::ShowFrames,
            ProbeArg::ShowError,
        ],
        "-input.mkv",
    );
    assert_eq!(
        args,
        strings(&[
            "-v",
            "error",
            "-of",
            "json",
            "-show_error",
            "-show_packets",
            "-show_data_hash",
            "sha256",
            "-show_entries",
            "packet=stream_index,data_hash",
            "-select_streams",
            "12",
            "-read_intervals",
            "%+#1",
            "-show_frames",
            "-show_error",
            "--",
            "-input.mkv",
        ])
    );
}

#[test]
fn cover_frames_are_copied_to_standard_output() {
    assert_eq!(
        cover_extraction("in.mkv", 7),
        strings(&[
            "-hide_banner",
            "-nostdin",
            "-nostats",
            "-i",
            "in.mkv",
            "-map",
            "0:7",
            "-c",
            "copy",
            "-frames:v",
            "1",
            "-f",
            "image2pipe",
            "pipe:1",
        ])
    );
}

#[test]
fn encoder_help_names_the_encoder() {
    assert_eq!(encoder_help("libx264"), strings(&["-hide_banner", "-h", "encoder=libx264"]));
}

#[test]
fn seek_decode_hashes_one_second_of_two_streams() {
    assert_eq!(
        seek_decode("out.mp4", 0, 3, "12.500000"),
        strings(&[
            "-hide_banner",
            "-nostdin",
            "-v",
            "error",
            "-ss",
            "12.500000",
            "-i",
            "out.mp4",
            "-map",
            "0:0",
            "-map",
            "0:3",
            "-c:0",
            "copy",
            "-t",
            "1",
            "-f",
            "framehash",
            "-",
        ])
    );
}

#[test]
fn framehash_lines_of_the_second_stream_are_audio() {
    assert!(audio_frame_line("1,          0,          0,     1024,     4096, 0123abcd"));
    assert!(audio_frame_line(" 1 , 0"));
    assert!(!audio_frame_line("0,          0,          0,        1,   460800, ffee"));
    assert!(!audio_frame_line("#tb 1: 1/48000"));
    assert!(!audio_frame_line("10, 0"));
}

#[test]
fn paths_join_with_one_separator() {
    assert_eq!(join_path("/tmp/work", "attachment-3"), "/tmp/work/attachment-3");
    assert_eq!(join_path("/tmp/work/", "attachment-3"), "/tmp/work/attachment-3");
    assert_eq!(join_path("", "attachment-3"), "attachment-3");
}
