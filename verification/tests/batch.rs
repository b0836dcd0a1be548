use yog::batch::{batch_summary, replace_extension, BatchError, BatchOutputs};
use yog::media::{MediaFormat, MediaInfo, MediaStream, Tags};
use yog::plan::{Container, TranscodeRequest};

fn stream(index: usize, codec_type: &str) -> MediaStream {
    MediaStream {
        index,
        codec_name: None,
        codec_long_name: None,
        profile: None,
        codec_type: Some(codec_type.to_string()),
        codec_tag_string: None,
        width: None,
        height: None,
        sample_aspect_ratio: None,
        display_aspect_ratio: None,
        pix_fmt: None,
        level: None,
        color_range: None,
        color_space: None,
        color_transfer: None,
        color_primaries: None,
        chroma_location: None,
        field_order: None,
        r_frame_rate: None,
        avg_frame_rate: None,
        time_base: None,
        start_time: None,
        duration: None,
        bit_rate: None,
        sample_fmt: None,
        sample_rate: None,
        channels: None,
        channel_layout: None,
        bits_per_sample: None,
        bits_per_raw_sample: None,
        extradata_size: None,
        extradata_hash: None,
        disposition: Vec::new(),
        tags: Tags::new(),
        side_data_list: Vec::new(),
    }
}

fn probed(codec_type: &str, format_name: &str) -> MediaInfo {
    MediaInfo {
        streams: vec![stream(0, codec_type)],
        chapters: Vec::new(),
        programs: Vec::new(),
        format: MediaFormat {
            filename: None,
            format_name: Some(format_name.to_string()),
            format_long_name: None,
            start_time: None,
            duration: Some("1".to_string()),
            size: None,
            bit_rate: None,
            tags: Tags::new(),
        },
        pixel_formats: Vec::new(),
    }
}

fn format_of(extension: &str) -> &'static str {
    match extension {
        "mkv" | "webm" => "matroska,webm",
        "ts" | "m2ts" => "mpegts",
        "avi" => "avi",
        "flv" => "flv",
        "asf" | "wmv" => "asf",
        "mpg" | "mpeg" | "vob" => "mpeg",
        "ogg" | "ogv" => "ogg",
        _ => "mov,mp4,m4a,3gp,3g2,mj2",
    }
}

#[test]
fn recursive_outputs_keep_the_input_suffixes() {
    let template = TranscodeRequest::new("input".to_string(), "output".to_string());
    let mut outputs = BatchOutputs::new();
    for extension in [
        "mkv", "webm", "mp4", "mov", "m4a", "3gp", "3g2", "f4v", "ismv", "psp", "ts", "m2ts", "avi", "flv", "asf",
        "wmv", "mpg", "mpeg", "vob", "ogg", "ogv",
    ] {
        let name = format!("video.{extension}");
        let input = format!("input/{name}");
        let output = outputs.task_for(&template, &input, &name, &probed("video", format_of(extension))).unwrap();
        assert_eq!(output, Some(format!("output/{name}")), "{extension}");
    }
}

#[test]
fn recursive_mode_uses_core_container_resolution() {
    let template = TranscodeRequest::new("input".to_string(), "unsupported".to_string());
    let mut outputs = BatchOutputs::new();
    let error = outputs.task_for(&template, "input/clip.nut", "clip.nut", &probed("video", "nut")).unwrap_err();
    assert!(matches!(error, BatchError::UnsupportedContainer { format: Some(ref f) } if f == "nut"));

    let template =
        TranscodeRequest::new("input".to_string(), "converted".to_string()).with_container(Container::Matroska);
    let output = outputs.task_for(&template, "input/clip.nut", "clip.nut", &probed("video", "nut")).unwrap();
    assert_eq!(output.as_deref(), Some("converted/clip.mkv"));
}

#[test]
fn recursive_mode_rejects_output_collisions() {
    let template = TranscodeRequest::new("input".to_string(), "output".to_string()).with_container(Container::Webm);
    let mut outputs = BatchOutputs::new();
    let first = outputs.task_for(&template, "input/same.mkv", "same.mkv", &probed("video", "matroska,webm")).unwrap();
    assert_eq!(first.as_deref(), Some("output/same.webm"));
    let second = outputs.task_for(&template, "input/same.avi", "same.avi", &probed("video", "avi")).unwrap_err();
    assert!(matches!(second, BatchError::Collision { ref output } if output == "output/same.webm"));
    assert!(outputs.contains("output/same.webm"));
    assert!(!outputs.contains("output/same.avi"));
}

#[test]
fn files_without_timed_video_are_skipped() {
    let template = TranscodeRequest::new("in".to_string(), "out".to_string());
    let mut outputs = BatchOutputs::new();
    assert_eq!(outputs.task_for(&template, "in/song.ogg", "song.ogg", &probed("audio", "ogg")).unwrap(), None);
    let mut cover = probed("video", "mov,mp4,m4a,3gp,3g2,mj2");
    cover.streams[0].disposition = vec![("attached_pic".to_string(), 1)];
    assert_eq!(outputs.task_for(&template, "in/a.m4a", "a.m4a", &cover).unwrap(), None);
    assert!(!outputs.contains("out/a.m4a"));
}

#[test]
fn a_requested_container_equal_to_the_input_keeps_the_name() {
    let template = TranscodeRequest::new("in".to_string(), "out/".to_string()).with_container(Container::Matroska);
    let mut outputs = BatchOutputs::new();
    let output = outputs.task_for(&template, "in/sub/a.MKV", "sub/a.MKV", &probed("video", "matroska,webm")).unwrap();
    assert_eq!(output.as_deref(), Some("out/sub/a.MKV"));
}

#[test]
fn extensions_are_replaced_as_path_buf_does() {
    assert_eq!(replace_extension("a/b.tar.gz", "webm"), "a/b.tar.webm");
    assert_eq!(replace_extension("a/.hidden", "webm"), "a/.hidden.webm");
    assert_eq!(replace_extension("a/b.", "webm"), "a/b.webm");
    assert_eq!(replace_extension("a/b/", "webm"), "a/b.webm");
    assert_eq!(replace_extension("a/b/.", "webm"), "a/b.webm");
    assert_eq!(replace_extension("a/..", "webm"), "a/..");
    assert_eq!(replace_extension("/", "webm"), "/");
    assert_eq!(replace_extension("", "webm"), "");
    assert_eq!(replace_extension("a/b.mkv", ""), "a/b");
    assert_eq!(replace_extension("clip", "ts"), "clip.ts");
    for (path, ext) in [("a/b.tar.gz", "webm"), ("a/.hidden", "mkv"), ("x/y.", "ts"), ("p/q/", "mp4"), ("a/b.mkv", "")] {
        let mut expected = std::path::PathBuf::from(path);
        expected.set_extension(ext);
        assert_eq!(replace_extension(path, ext), expected.to_str().unwrap(), "{path}");
    }
}

#[test]
fn batch_summary_counts_unprocessed_tasks_only_when_cancelled() {
    assert_eq!(
        batch_summary(3, 1, 0, true),
        "batch summary: total 3 | succeeded 1 | failed 0 | not processed 2 | cancelled\n"
    );
    assert_eq!(batch_summary(4, 3, 1, false), "batch summary: total 4 | succeeded 3 | failed 1\n");
}
