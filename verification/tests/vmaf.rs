use yog::emulation::chart_title;
use yog::decoding::DecodingBackend;
use yog::encoding::{NvencMultipass, NvencPreset, Preset, QsvPreset, VideoCodec, VideoEncoding};
use yog::media::{MediaFormat, MediaInfo, MediaStream, Tags};
use yog::plan::{Container, TranscodePlan};
use yog::vmaf::{distorted_stream, reference_stream, vmaf_command, vmaf_filter, VmafError};

fn stream(index: usize, codec_type: &str, size: Option<(u32, u32)>) -> MediaStream {
    MediaStream {
        index,
        codec_name: None,
        codec_long_name: None,
        profile: None,
        codec_type: Some(codec_type.to_string()),
        codec_tag_string: None,
        width: size.map(|s| s.0),
        height: size.map(|s| s.1),
        sample_aspect_ratio: None,
        display_aspect_ratio: None,
        pix_fmt: None,
        level: None,
        color_range: None,
        color_space: None,
        color_transfer: None,
        color_primaries: None,
        chroma_location: None,
        field_order: None,
        r_frame_rate: None,
        avg_frame_rate: None,
        time_base: None,
        start_time: None,
        duration: None,
        bit_rate: None,
        sample_fmt: None,
        sample_rate: None,
        channels: None,
        channel_layout: None,
        bits_per_sample: None,
        bits_per_raw_sample: None,
        extradata_size: None,
        extradata_hash: None,
        disposition: Vec::new(),
        tags: Tags::new(),
        side_data_list: Vec::new(),
    }
}

fn media(streams: Vec<MediaStream>) -> MediaInfo {
    MediaInfo {
        streams,
        chapters: Vec::new(),
        programs: Vec::new(),
        format: MediaFormat {
            filename: None,
            format_name: None,
            format_long_name: None,
            start_time: None,
            duration: None,
            size: None,
            bit_rate: None,
            tags: Tags::new(),
        },
        pixel_formats: Vec::new(),
    }
}

#[test]
fn vmaf_filter_crops_aligns_and_logs_json() {
    assert_eq!(
        vmaf_filter(0, 1920, 1080, 3, "'/tmp/m.json'", false, None),
        "[0:0]crop=w=1920:h=1080:x=0:y=0:exact=1,setpts=PTS-STARTPTS[dist];[1:3]setpts=PTS-STARTPTS[ref];[dist][ref]libvmaf=log_fmt=json:log_path='/tmp/m.json':shortest=1[out]"
    );
    assert_eq!(
        vmaf_filter(2, 640, 360, 1, "'x'", true, Some(5)),
        "[0:2]crop=w=640:h=360:x=0:y=0:exact=1,setpts=PTS-STARTPTS[dist];[1:1]setpts=PTS-STARTPTS[ref];[dist][ref]libvmaf=feature=name=psnr|name=float_ssim:log_fmt=json:log_path='x':shortest=1:n_subsample=5[out]"
    );
}

#[test]
fn vmaf_command_seeks_the_reference_only_when_asked() {
    let strings = |v: &[&str]| v.iter().map(|s| s.to_string()).collect::<Vec<_>>();
    assert_eq!(
        vmaf_command("out.mkv", "in.mkv", Some("12.000000000"), "F".to_string()),
        strings(&[
            "-hide_banner", "-nostdin", "-v", "error", "-i", "out.mkv", "-ss", "12.000000000", "-i", "in.mkv",
            "-filter_complex", "F", "-map", "[out]", "-f", "null", "-",
        ])
    );
    assert_eq!(
        vmaf_command("out.mkv", "in.mkv", None, "F".to_string()),
        strings(&[
            "-hide_banner", "-nostdin", "-v", "error", "-i", "out.mkv", "-i", "in.mkv", "-filter_complex", "F",
            "-map", "[out]", "-f", "null", "-",
        ])
    );
}

#[test]
fn comparisons_need_timed_video_with_dimensions() {
    assert_eq!(reference_stream(&media(vec![stream(0, "audio", None)])), Err(VmafError::NoReferenceVideo));
    assert_eq!(
        reference_stream(&media(vec![stream(4, "video", Some((0, 720)))])),
        Err(VmafError::MissingReferenceDimensions { stream_index: 4 })
    );
    assert_eq!(reference_stream(&media(vec![stream(1, "audio", None), stream(2, "video", Some((1280, 720)))])), Ok((2, 1280, 720)));
    assert_eq!(distorted_stream(&media(vec![stream(0, "audio", None)])), Err(VmafError::NoDistortedVideo));
    assert_eq!(distorted_stream(&media(vec![stream(0, "audio", None), stream(5, "video", None)])), Ok(5));
}

#[test]
fn chart_titles_name_encoder_decoder_and_speed_settings() {
    assert_eq!(
        chart_title(&VideoEncoding::X264 { rate: None, preset: Some(Preset::Slow) }, &DecodingBackend::Software),
        "x264 / Software / Preset slow"
    );
    assert_eq!(
        chart_title(
            &VideoEncoding::Nvenc {
                codec: VideoCodec::Hevc,
                rate: None,
                preset: Some(NvencPreset::P5),
                multipass: Some(NvencMultipass::FullResolution),
            },
            &DecodingBackend::Cuda(None),
        ),
        "HEVC NVENC / CUDA decode / Preset p5 / Multipass fullres"
    );
    assert_eq!(
        chart_title(
            &VideoEncoding::Vaapi { codec: VideoCodec::Av1, rate: None, device: "/dev/dri/renderD128".to_string() },
            &DecodingBackend::Vaapi(None),
        ),
        "AV1 VAAPI / VAAPI decode"
    );
    assert_eq!(
        chart_title(&VideoEncoding::SvtAv1 { rate: None, preset: Some(7) }, &DecodingBackend::Qsv(None)),
        "SVT-AV1 / QSV decode / Preset 7"
    );
    assert_eq!(chart_title(&VideoEncoding::AomAv1 { rate: None, cpu_used: Some(4) }, &DecodingBackend::Software), "AOM-AV1 / Software / CPU Used 4");
    assert_eq!(chart_title(&VideoEncoding::Rav1e { rate: None, speed: None }, &DecodingBackend::Software), "rav1e / Software");
    assert_eq!(
        chart_title(&VideoEncoding::Qsv { codec: VideoCodec::H264, rate: None, preset: Some(QsvPreset::Veryfast) }, &DecodingBackend::Software),
        "H.264 QSV / Software / Preset veryfast"
    );
}

#[test]
fn containers_are_named_by_their_extension() {
    assert_eq!(Container::from_name("mkv").unwrap(), Container::Matroska);
    assert_eq!(Container::from_name("ts").unwrap(), Container::MpegTs);
    assert_eq!(Container::from_name("mpg").unwrap(), Container::MpegPs);
    assert_eq!(Container::from_name("mpeg").unwrap(), Container::MpegPs);
    assert_eq!(Container::from_name("3g2").unwrap(), Container::ThreeG2);
    assert_eq!(Container::from_name("matroska").unwrap_err(), "unknown container matroska");
    for name in ["mkv", "mp4", "mov", "m4a", "3gp", "3g2", "f4v", "ismv", "psp", "webm", "ts", "m2ts", "avi", "flv", "asf", "wmv", "mpg", "vob", "ogg", "ogv"] {
        assert_eq!(Container::from_name(name).unwrap().extension(), name);
    }
}

#[test]
fn a_plan_without_metadata_mappings_cannot_be_sampled() {
    let plan = TranscodePlan {
        input: "in".to_string(),
        output: "out".to_string(),
        args: vec!["-i".to_string(), "in".to_string()],
        attachments: Vec::new(),
        input_position: 0,
    };
    assert!(!plan.can_sample("1.0", "2.0"));
    let mapped = TranscodePlan {
        args: ["-i", "in", "-map_metadata", "0", "-map_chapters", "0"].iter().map(|s| s.to_string()).collect(),
        ..plan
    };
    assert!(mapped.can_sample("1.0", "2.0"));
    let sample = mapped.sample("1.0", "2.0", "sample.mkv".to_string(), true);
    assert_eq!(sample.args, ["-ss", "1.0", "-i", "in", "-map_metadata", "-1", "-map_chapters", "-1", "-t", "2.0"]);
}
