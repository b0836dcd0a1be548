use yog::fingerprint::{FingerprintFold, PacketFingerprint};
use yog::media::{MediaFormat, MediaInfo, MediaStream, Tags};
use yog::output_check::{packet_findings, seek_streams, PacketFinding};
use yog::plan::TranscodePlan;

fn stream(index: usize, codec_type: &str) -> MediaStream {
    MediaStream {
        index,
        codec_name: None,
        codec_long_name: None,
        profile: None,
        codec_type: Some(codec_type.to_string()),
        codec_tag_string: None,
        width: None,
        height: None,
        sample_aspect_ratio: None,
        display_aspect_ratio: None,
        pix_fmt: None,
        level: None,
        color_range: None,
        color_space: None,
        color_transfer: None,
        color_primaries: None,
        chroma_location: None,
        field_order: None,
        r_frame_rate: None,
        avg_frame_rate: None,
        time_base: None,
        start_time: None,
        duration: None,
        bit_rate: None,
        sample_fmt: None,
        sample_rate: None,
        channels: None,
        channel_layout: None,
        bits_per_sample: None,
        bits_per_raw_sample: None,
        extradata_size: None,
        extradata_hash: None,
        disposition: Vec::new(),
        tags: Tags::new(),
        side_data_list: Vec::new(),
    }
}

fn media(streams: Vec<MediaStream>) -> MediaInfo {
    MediaInfo {
        streams,
        chapters: Vec::new(),
        programs: Vec::new(),
        format: MediaFormat {
            filename: None,
            format_name: None,
            format_long_name: None,
            start_time: None,
            duration: None,
            size: None,
            bit_rate: None,
            tags: Tags::new(),
        },
        pixel_formats: Vec::new(),
    }
}

fn plan() -> TranscodePlan {
    TranscodePlan {
        input: "in.mkv".to_string(),
        output: "out.mkv".to_string(),
        args: Vec::new(),
        attachments: Vec::new(),
        input_position: 0,
    }
}

fn fingerprints(streams: &[usize], packets: &[(usize, &str, Option<&str>)]) -> Vec<(usize, PacketFingerprint)> {
    let mut fold = FingerprintFold::new(streams);
    for &(stream, hash, pts) in packets {
        fold.feed(stream, hash, pts, None);
    }
    fold.finish()
}

#[test]
fn identical_packets_give_no_findings() {
    let before = media(vec![stream(0, "video"), stream(1, "audio")]);
    let after = media(vec![stream(0, "video"), stream(1, "audio")]);
    let source = fingerprints(&[1], &[(1, "a", Some("0.0")), (1, "b", Some("0.02"))]);
    let destination = fingerprints(&[1], &[(1, "a", Some("0.0")), (1, "b", Some("0.02"))]);
    assert!(packet_findings(&before, &after, &vec![(1, 1)], &source, &destination, &plan()).is_empty());
}

#[test]
fn payload_count_and_timing_differences_are_reported_per_pair() {
    let before = media(vec![stream(2, "audio"), stream(5, "subtitle")]);
    let after = media(vec![stream(0, "subtitle"), stream(1, "audio")]);
    let source = fingerprints(&[2, 5], &[(2, "a", Some("0.0")), (2, "b", Some("0.02")), (5, "s", Some("1.0"))]);
    let destination = fingerprints(&[0, 1], &[(1, "a", Some("0.0")), (0, "s", Some("1.5"))]);
    let findings = packet_findings(&before, &after, &vec![(0, 1), (1, 0)], &source, &destination, &plan());
    assert_eq!(
        findings,
        vec![
            (0, 1, PacketFinding::Packets { input_packets: 2, output_packets: 1 }),
            (0, 1, PacketFinding::Timing),
            (1, 0, PacketFinding::Timing),
        ]
    );
}

#[test]
fn seek_tests_use_the_first_timed_video_and_audio_of_each_file() {
    let mut cover = stream(0, "video");
    cover.disposition = vec![("attached_pic".to_string(), 1)];
    let before = media(vec![cover, stream(3, "audio"), stream(4, "video"), stream(6, "audio")]);
    let after = media(vec![stream(0, "video"), stream(1, "audio")]);
    assert_eq!(seek_streams(&before, &after), Some((4, 3, 0, 1)));
    let silent = media(vec![stream(0, "video")]);
    assert_eq!(seek_streams(&before, &silent), None);
}
