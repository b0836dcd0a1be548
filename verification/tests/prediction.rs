use yog::media::{MediaFormat, MediaInfo, MediaStream, Packet, Tags};
use yog::prediction::{
    escape_filter_path, size_sample, PacketBytes, SizeSample, PacketTally, PredictionError, ProbeValueError, SampleLayout,
};

fn stream(index: usize, codec_type: &str) -> MediaStream {
    MediaStream {
        index,
        codec_name: None,
        codec_long_name: None,
        profile: None,
        codec_type: Some(codec_type.to_string()),
        codec_tag_string: None,
        width: None,
        height: None,
        sample_aspect_ratio: None,
        display_aspect_ratio: None,
        pix_fmt: None,
        level: None,
        color_range: None,
        color_space: None,
        color_transfer: None,
        color_primaries: None,
        chroma_location: None,
        field_order: None,
        r_frame_rate: None,
        avg_frame_rate: None,
        time_base: None,
        start_time: None,
        duration: None,
        bit_rate: None,
        sample_fmt: None,
        sample_rate: None,
        channels: None,
        channel_layout: None,
        bits_per_sample: None,
        bits_per_raw_sample: None,
        extradata_size: None,
        extradata_hash: None,
        disposition: Vec::new(),
        tags: Tags::new(),
        side_data_list: Vec::new(),
    }
}

fn media(streams: Vec<MediaStream>) -> MediaInfo {
    MediaInfo {
        streams,
        chapters: Vec::new(),
        programs: Vec::new(),
        format: MediaFormat {
            filename: None,
            format_name: None,
            format_long_name: None,
            start_time: None,
            duration: None,
            size: None,
            bit_rate: None,
            tags: Tags::new(),
        },
        pixel_formats: Vec::new(),
    }
}

fn packet(stream_index: usize, size: Option<&str>) -> Packet {
    Packet {
        stream_index,
        pts_time: None,
        dts_time: None,
        duration_time: None,
        size: size.map(str::to_string),
        flags: None,
    }
}

#[test]
fn sample_layout_counts_attachment_extradata_as_fixed_payload() {
    let mut video = stream(2, "video");
    video.pix_fmt = Some("yuv420p".into());
    let mut attachment = stream(5, "attachment");
    attachment.extradata_size = Some(100);
    let mut cover = stream(7, "video");
    cover.disposition = vec![("attached_pic".into(), 1)];
    cover.extradata_size = Some(3);
    let mut audio = stream(8, "audio");
    audio.extradata_size = Some(999);
    let mut media = media(vec![video, attachment, cover, audio]);

    let layout = SampleLayout::from_media(&media).unwrap();
    assert_eq!(layout.video_stream_index, 2);
    assert_eq!(layout.untimed_streams, vec![5, 7]);
    assert_eq!(layout.fixed_extradata_bytes, 103);

    media.streams[1].extradata_size = None;
    assert!(matches!(
        SampleLayout::from_media(&media),
        Err(PredictionError::MissingAttachmentSize { stream_index: 5 })
    ));
}

#[test]
fn packet_sizes_split_timed_and_fixed_bytes_and_stop_at_the_first_error() {
    let untimed = vec![5];
    let mut tally = PacketTally::new();
    tally.add(&untimed, &packet(0, Some("100")));
    tally.add(&untimed, &packet(5, Some("7")));
    tally.add(&untimed, &packet(1, Some("20")));
    assert_eq!(tally.finish(), Ok(PacketBytes { timed: 120, untimed: 7 }));

    let mut tally = PacketTally::new();
    tally.add(&untimed, &packet(0, Some("x")));
    tally.add(&untimed, &packet(0, None));
    assert_eq!(
        tally.finish(),
        Err(PredictionError::ProbeValue(ProbeValueError::Invalid { field: "size", value: "x".into() }))
    );

    let mut tally = PacketTally::new();
    tally.add(&untimed, &packet(0, Some(&u64::MAX.to_string())));
    tally.add(&untimed, &packet(0, Some("1")));
    assert_eq!(tally.finish(), Err(PredictionError::ByteCountOverflow));
}

#[test]
fn filter_paths_are_quoted_and_escaped() {
    assert_eq!(escape_filter_path("C:\\clips\\it's.mkv"), "'C\\:/clips/it'\\''s.mkv'");
    assert_eq!(escape_filter_path("plain"), "'plain'");
}

#[test]
fn sample_bytes_split_into_scalable_and_fixed_parts() {
    let bytes = PacketBytes { timed: 1000, untimed: 50 };
    assert_eq!(size_sample(1, bytes, 20, 1200), Ok(SizeSample { scalable_bytes: 1130, fixed_bytes: 70 }));
    assert_eq!(size_sample(2, bytes, 20, 1069), Err(PredictionError::PacketPayloadExceedsFile { sample: 2 }));
    assert_eq!(size_sample(3, PacketBytes { timed: 0, untimed: 5 }, 0, 10), Err(PredictionError::NoTimedPackets { sample: 3 }));
    assert_eq!(size_sample(4, PacketBytes { timed: 1, untimed: u64::MAX }, 0, 10), Err(PredictionError::ByteCountOverflow));
}
