use yog::decoding::DecodingBackend;
use yog::encoding::{NvencMultipass, NvencPreset, RateControl, VideoCodec, VideoEncoding};
use yog::media::{
    MediaFormat, MediaInfo, MediaStream, PixelComponent, PixelFormat, PixelFormatFlags, Tags,
};
use yog::plan::{AttachmentInput, Container, PlanError, TranscodePlan, TranscodeRequest, VideoAction};

fn tags(pairs: &[(&str, &str)]) -> Tags {
    let mut t = Tags::new();
    for (k, v) in pairs {
        t.insert(k.to_string(), v.to_string());
    }
    t
}

fn stream(index: usize, codec_type: &str) -> MediaStream {
    MediaStream {
        index,
        codec_name: None,
        codec_long_name: None,
        profile: None,
        codec_type: Some(codec_type.to_string()),
        codec_tag_string: None,
        width: None,
        height: None,
        sample_aspect_ratio: None,
        display_aspect_ratio: None,
        pix_fmt: None,
        level: None,
        color_range: None,
        color_space: None,
        color_transfer: None,
        color_primaries: None,
        chroma_location: None,
        field_order: None,
        r_frame_rate: None,
        avg_frame_rate: None,
        time_base: None,
        start_time: None,
        duration: None,
        bit_rate: None,
        sample_fmt: None,
        sample_rate: None,
        channels: None,
        channel_layout: None,
        bits_per_sample: None,
        bits_per_raw_sample: None,
        extradata_size: None,
        extradata_hash: None,
        disposition: Vec::new(),
        tags: Tags::new(),
        side_data_list: Vec::new(),
    }
}

fn video(index: usize, pix_fmt: &str) -> MediaStream {
    let mut s = stream(index, "video");
    s.pix_fmt = Some(pix_fmt.to_string());
    s
}

fn cover(index: usize) -> MediaStream {
    let mut s = stream(index, "video");
    s.disposition = vec![("attached_pic".to_string(), 1)];
    s
}

fn descriptor(name: &str, nb: u8, w: u8, h: u8, rgb: u8, alpha: u8, palette: u8, hwaccel: u8, depths: &[u8]) -> PixelFormat {
    PixelFormat {
        name: name.to_string(),
        nb_components: nb,
        log2_chroma_w: Some(w),
        log2_chroma_h: Some(h),
        flags: PixelFormatFlags { rgb, alpha, palette, hwaccel },
        components: depths.iter().map(|&bit_depth| PixelComponent { bit_depth }).collect(),
    }
}

fn descriptors() -> Vec<PixelFormat> {
    vec![
        descriptor("yuv420p", 3, 1, 1, 0, 0, 0, 0, &[8, 8, 8]),
        descriptor("nv12", 3, 1, 1, 0, 0, 0, 0, &[8, 8, 8]),
        descriptor("yuv420p10le", 3, 1, 1, 0, 0, 0, 0, &[10, 10, 10]),
        descriptor("p010le", 3, 1, 1, 0, 0, 0, 0, &[10, 10, 10]),
        descriptor("yuv444p12le", 3, 0, 0, 0, 0, 0, 0, &[12, 12, 12]),
        descriptor("yuv444p", 3, 0, 0, 0, 0, 0, 0, &[8, 8, 8]),
        descriptor("rgb24", 3, 0, 0, 1, 0, 0, 0, &[8, 8, 8]),
        descriptor("gbrp", 3, 0, 0, 1, 0, 0, 0, &[8, 8, 8]),
        descriptor("rgb565le", 3, 0, 0, 1, 0, 0, 0, &[5, 6, 5]),
        descriptor("rgb565be", 3, 0, 0, 1, 0, 0, 0, &[5, 6, 5]),
        descriptor("pal8", 1, 0, 0, 0, 0, 1, 0, &[8]),
        descriptor("yuva420p", 4, 1, 1, 0, 1, 0, 0, &[8, 8, 8, 8]),
        descriptor("gray", 1, 0, 0, 0, 0, 0, 0, &[8]),
        descriptor("vaapi", 0, 1, 1, 0, 0, 0, 1, &[]),
        descriptor("cuda", 0, 0, 0, 0, 0, 0, 1, &[]),
        descriptor("qsv", 0, 0, 0, 0, 0, 0, 1, &[]),
    ]
}

fn format(format_name: Option<&str>) -> MediaFormat {
    MediaFormat {
        filename: None,
        format_name: format_name.map(str::to_string),
        format_long_name: None,
        start_time: None,
        duration: None,
        size: None,
        bit_rate: None,
        tags: Tags::new(),
    }
}

fn media(streams: Vec<MediaStream>) -> MediaInfo {
    MediaInfo {
        streams,
        chapters: Vec::new(),
        programs: Vec::new(),
        format: format(None),
        pixel_formats: descriptors(),
    }
}

fn strings(v: &[&str]) -> Vec<String> {
    v.iter().map(|s| s.to_string()).collect()
}

fn pairs<'a>(plan: &'a TranscodePlan, flag: &str) -> Vec<&'a str> {
    plan.args.windows(2).filter(|p| p[0] == flag).map(|p| p[1].as_str()).collect()
}

fn value<'a>(plan: &'a TranscodePlan, key: &str) -> Option<&'a str> {
    plan.args.windows(2).find(|p| p[0] == key).map(|p| p[1].as_str())
}

#[test]
fn input_container_uses_exact_extensions_and_family_fallbacks() {
    const MOV_FAMILY: &str = "mov,mp4,m4a,3gp,3g2,mj2";
    for (extension, format_name, container, muxer) in [
        ("mkv", "matroska,webm", Container::Matroska, "matroska"),
        ("WEBM", "matroska,webm", Container::Webm, "webm"),
        ("mp4", MOV_FAMILY, Container::Mp4, "mp4"),
        ("MOV", MOV_FAMILY, Container::Mov, "mov"),
        ("m4a", MOV_FAMILY, Container::M4a, "ipod"),
        ("m4b", MOV_FAMILY, Container::M4a, "ipod"),
        ("m4v", MOV_FAMILY, Container::M4a, "ipod"),
        ("3gp", MOV_FAMILY, Container::ThreeGp, "3gp"),
        ("3g2", MOV_FAMILY, Container::ThreeG2, "3g2"),
        ("f4v", MOV_FAMILY, Container::F4v, "f4v"),
        ("ISMV", MOV_FAMILY, Container::Ismv, "ismv"),
        ("isma", MOV_FAMILY, Container::Ismv, "ismv"),
        ("psp", MOV_FAMILY, Container::Psp, "psp"),
        ("ts", "mpegts", Container::MpegTs, "mpegts"),
        ("m2t", "mpegts", Container::M2ts, "mpegts"),
        ("m2ts", "mpegts", Container::M2ts, "mpegts"),
        ("mts", "mpegts", Container::M2ts, "mpegts"),
        ("avi", "avi", Container::Avi, "avi"),
        ("flv", "flv", Container::Flv, "flv"),
        ("asf", "asf", Container::Asf, "asf"),
        ("wmv", "asf", Container::Wmv, "asf"),
        ("mpg", "mpeg", Container::MpegPs, "mpeg"),
        ("mpeg", "mpeg", Container::MpegPs, "mpeg"),
        ("vob", "mpeg", Container::Vob, "vob"),
        ("ogg", "ogg", Container::Ogg, "ogg"),
        ("ogv", "ogg", Container::Ogv, "ogv"),
    ] {
        let path = format!("video.{extension}");
        let actual = Container::from_input(&path, Some(format_name)).unwrap();
        assert_eq!(actual, container, "{path}");
        assert_eq!(actual.muxer(), muxer, "{path}");
    }
    for (path, format_name, container) in [
        ("video.mj2", MOV_FAMILY, Container::Mp4),
        ("video", MOV_FAMILY, Container::Mp4),
        ("video.bin", "mpegts", Container::MpegTs),
        ("video.bin", "matroska,webm", Container::Matroska),
        ("video.bin", "asf", Container::Asf),
        ("video.bin", "mpeg", Container::MpegPs),
        ("video.bin", "ogg", Container::Ogg),
        ("video.bin", "avi", Container::Avi),
    ] {
        assert_eq!(Container::from_input(path, Some(format_name)), Some(container), "{path} {format_name}");
    }
    assert!(Container::from_input("video.nut", Some("nut")).is_none());
    assert!(Container::from_input("video.avi", None).is_none());

    let mut media = media(Vec::new());
    media.format = format(Some("mpegts"));
    for (input, explicit, m2ts) in [
        ("video.m2ts", None, true),
        ("video.MTS", None, true),
        ("video.ts", None, false),
        ("video.m2ts", Some(Container::MpegTs), false),
        ("video.ts", Some(Container::M2ts), true),
    ] {
        let mut request = TranscodeRequest::new(input.to_string(), "output".to_string());
        request.container = explicit;
        let plan = request.build(&media, &[]).unwrap();
        assert_eq!(plan.args.iter().any(|arg| arg == "-mpegts_m2ts_mode"), m2ts, "{input} {explicit:?}");
    }
}

#[test]
fn mapping_preserves_order_and_covers_override_shared_encoding() {
    let mut still = video(2, "nv12");
    still.disposition = vec![("still_image".to_string(), 1)];
    let mut interlaced = video(9, "nv12");
    interlaced.field_order = Some("tt".to_string());
    let media = media(vec![cover(4), stream(1, "audio"), interlaced, stream(7, "subtitle"), still]);
    let plan = TranscodeRequest {
        input: "input.mkv".to_string(),
        output: "-output.mkv".to_string(),
        container: Some(Container::Mp4),
        overwrite: false,
        decoding: DecodingBackend::Software,
        video: VideoAction::Encode(VideoEncoding::Nvenc {
            codec: VideoCodec::Hevc,
            rate: Some(RateControl::Quality(23)),
            preset: Some(NvencPreset::P4),
            multipass: Some(NvencMultipass::FullResolution),
        }),
    }
    .build(&media, &strings(&["nv12"]))
    .unwrap();
    assert_eq!(pairs(&plan, "-map"), ["0:4", "0:1", "0:9", "0:7", "0:2"]);
    let options: Vec<_> = plan
        .args
        .windows(2)
        .filter(|pair| {
            pair[0] == "-c"
                || pair[0].starts_with("-c:")
                || ["-rc:v", "-b:v", "-cq:v", "-preset:v", "-multipass:v"].contains(&pair[0].as_str())
        })
        .map(|pair| (pair[0].as_str(), pair[1].as_str()))
        .collect();
    assert_eq!(
        options,
        [
            ("-c", "copy"),
            ("-c:v", "hevc_nvenc"),
            ("-rc:v", "vbr"),
            ("-b:v", "0"),
            ("-cq:v", "23"),
            ("-preset:v", "p4"),
            ("-multipass:v", "fullres"),
            ("-c:0", "copy"),
        ]
    );
    assert!(!plan.args.iter().any(|arg| arg.starts_with("-filter:")));
}

#[test]
fn matroska_encoding_reattaches_native_attachments_and_bounds_interleaving() {
    let mut png = cover(8);
    png.codec_name = Some("png".to_string());
    png.tags = tags(&[("filename", "原封面.png"), ("mimetype", "image/png"), ("title", "Front"), ("custom", "keep me")]);
    let mut font = stream(15, "attachment");
    font.tags = tags(&[("filename", "font.ttf"), ("mimetype", "font/ttf")]);
    let mut jpeg = cover(12);
    jpeg.codec_name = Some("mjpeg".to_string());
    let media = media(vec![png, stream(5, "audio"), video(9, "yuv420p10le"), font, jpeg, video(20, "yuv444p12le")]);
    let plan = TranscodeRequest::mkv("input".to_string(), "output".to_string())
        .with_video(VideoAction::Copy)
        .build(&media, &[])
        .unwrap();
    assert_eq!(pairs(&plan, "-map"), ["0:5", "0:9", "0:15", "0:20"]);
    assert_eq!(
        plan.attachments.iter().map(|a| (a.input_index, a.output_index, a.input)).collect::<Vec<_>>(),
        [(8, 4, AttachmentInput::CoverFrame), (12, 5, AttachmentInput::CoverFrame)]
    );
    assert!(!plan.args.iter().any(|arg| arg == "-max_interleave_delta"));

    let plan = TranscodeRequest::mkv("input".to_string(), "output".to_string())
        .with_video(VideoAction::encode_x264(None, None))
        .build(&media, &strings(&["yuv420p10le", "yuv444p12le"]))
        .unwrap();
    assert_eq!(pairs(&plan, "-map"), ["0:5", "0:9", "0:20"]);
    assert_eq!(
        plan.attachments.iter().map(|a| (a.input_index, a.output_index, a.input)).collect::<Vec<_>>(),
        [
            (8, 3, AttachmentInput::CoverFrame),
            (15, 4, AttachmentInput::AttachmentStream),
            (12, 5, AttachmentInput::CoverFrame)
        ]
    );
    assert_eq!(plan.attachments[0].metadata.entries(), media.streams[0].tags.entries());
    assert_eq!(plan.attachments[1].metadata.entries(), media.streams[3].tags.entries());
    assert_eq!(plan.attachments[2].metadata.get("filename").unwrap(), "cover-1.jpg");
    assert_eq!(plan.attachments[2].metadata.get("mimetype").unwrap(), "image/jpeg");
    assert_eq!(pairs(&plan, "-pix_fmt:1"), ["+yuv420p10le"], "first encoded video retains its mapped output index");
    assert_eq!(pairs(&plan, "-pix_fmt:2"), ["+yuv444p12le"]);
    assert_eq!(pairs(&plan, "-max_interleave_delta"), ["0"]);

    let sample = plan.sample("12.5", "2", "sample".to_string(), true);
    let input = sample.args.iter().position(|arg| arg == "-i").unwrap();
    assert_eq!(&sample.args[input - 2..input], ["-ss", "12.5"]);
    assert_eq!(&sample.args[sample.args.len() - 2..], ["-t", "2"]);
    for flag in ["-map_metadata", "-map_chapters"] {
        let position = sample.args.iter().position(|arg| arg == flag).unwrap();
        assert_eq!(sample.args[position + 1], "-1");
    }
    assert_eq!(
        sample.attachments.iter().map(|a| (a.input_index, a.output_index, a.input)).collect::<Vec<_>>(),
        [(8, 3, AttachmentInput::CoverFrame), (12, 4, AttachmentInput::CoverFrame)]
    );
    assert!(plan.sample("12.5", "2", "sample".to_string(), false).attachments.is_empty());

    let mut font = stream(1, "attachment");
    font.tags = tags(&[("filename", "font.ttf"), ("mimetype", "font/ttf")]);
    let video_and_attachment = media_with(vec![video(0, "yuv420p"), font]);
    let plan = TranscodeRequest::mkv("input".to_string(), "output".to_string())
        .with_video(VideoAction::encode_x264(None, None))
        .build(&video_and_attachment, &strings(&["yuv420p"]))
        .unwrap();
    assert!(
        !plan.args.iter().any(|arg| arg == "-max_interleave_delta"),
        "unbounded interleaving is only needed when a timed stream is copied"
    );

    for container in [
        Container::Mp4,
        Container::Mov,
        Container::M4a,
        Container::ThreeGp,
        Container::ThreeG2,
        Container::F4v,
        Container::Ismv,
        Container::Psp,
        Container::Webm,
        Container::MpegTs,
        Container::M2ts,
        Container::Avi,
        Container::Flv,
        Container::Asf,
        Container::Wmv,
        Container::MpegPs,
        Container::Vob,
        Container::Ogg,
        Container::Ogv,
    ] {
        let plan = TranscodeRequest::new("input".to_string(), "output".to_string())
            .with_container(container)
            .build(&media, &[])
            .unwrap();
        assert!(plan.attachments.is_empty());
        assert_eq!(plan.args.iter().filter(|arg| *arg == "-map").count(), media.streams.len());
    }
}

fn media_with(streams: Vec<MediaStream>) -> MediaInfo {
    media(streams)
}

#[test]
fn copy_has_no_encoding_options_and_does_not_drop_unknown_streams() {
    let mut data = stream(2, "data");
    data.codec_name = Some("unknown".to_string());
    let mut media = media(vec![stream(0, "audio"), data]);
    media.pixel_formats = Vec::new();
    let plan = TranscodeRequest::new(String::new(), String::new())
        .with_input("in.ts".to_string())
        .with_output("out.webm".to_string())
        .with_container(Container::Webm)
        .with_overwrite(true)
        .build(&media, &strings(&["nv12"]))
        .unwrap();
    assert_eq!(
        plan.args,
        [
            "-y", "-i", "in.ts", "-map_metadata", "0", "-map_chapters", "0", "-c", "copy", "-map", "0:0",
            "-map", "0:2", "-f", "webm",
        ]
    );
}

#[test]
fn vaapi_device_is_only_emitted_once_when_encoding_a_video() {
    for (streams, devices) in [
        (vec![stream(0, "audio"), cover(1)], 0),
        (vec![video(0, "yuv420p"), video(1, "yuv420p10le")], 1),
    ] {
        let media = media(streams);
        let plan = TranscodeRequest::mkv("input".to_string(), "output".to_string())
            .with_video(VideoAction::encode_vaapi(
                VideoCodec::Av1,
                "/dev/dri/custom".to_string(),
                Some(RateControl::Quality(28)),
            ))
            .build(&media, &strings(&["nv12"]))
            .unwrap();
        assert_eq!(
            plan.args.windows(2).filter(|pair| pair[0] == "-vaapi_device" && pair[1] == "/dev/dri/custom").count(),
            devices
        );
        for option in ["-c:v", "-rc_mode:v", "-global_quality:v"] {
            assert_eq!(plan.args.iter().filter(|arg| *arg == option).count(), devices);
        }
        assert!(!plan.args.iter().any(|arg| arg == "-qp:v"));
    }
}

#[test]
fn frame_paths_cover_all_decoder_encoder_pairs_and_device_boundaries() {
    let media = media(vec![stream(5, "audio"), video(9, "yuv420p10le"), cover(3)]);
    let decoders = [
        DecodingBackend::Software,
        DecodingBackend::Vaapi(None),
        DecodingBackend::Cuda(None),
        DecodingBackend::Qsv(None),
    ];
    let encoders = [
        VideoAction::encode_x264(None, None),
        VideoAction::encode_vaapi(VideoCodec::Hevc, "/dev/dri/renderD128".to_string(), None),
        VideoAction::encode_nvenc(VideoCodec::Hevc, None, None, None),
        VideoAction::encode_qsv(VideoCodec::Hevc, None, None),
    ];
    for (d, decoding) in decoders.iter().enumerate() {
        for (e, video) in encoders.iter().enumerate() {
            let formats = if e == 0 { strings(&["yuv420p10le"]) } else { strings(&["p010le"]) };
            let plan = TranscodeRequest::mkv("input".to_string(), "output".to_string())
                .with_video(video.clone())
                .with_decoding(decoding.clone())
                .build(&media, &formats)
                .unwrap();
            let direct = d != 0 && d == e;
            assert_eq!(
                value(&plan, "-pix_fmt:1"),
                Some(if direct {
                    ["", "+vaapi", "+cuda", "+qsv"][d]
                } else if e == 1 {
                    "+vaapi"
                } else if e == 0 {
                    "+yuv420p10le"
                } else {
                    "+p010le"
                })
            );
            let filter = value(&plan, "-filter:1").unwrap_or("");
            assert_eq!(filter.contains("hwdownload"), d != 0 && !direct, "d={d} e={e}: {filter}");
            assert_eq!(filter.contains("hwupload"), e == 1 && !direct, "d={d} e={e}: {filter}");
            assert_eq!(value(&plan, "-vaapi_device").is_some(), e == 1 && !direct);
            if direct {
                assert!(filter.is_empty());
            }
            assert_eq!(value(&plan, "-c:2"), None);
            assert_eq!(plan.attachments[0].input_index, 3);
            assert_eq!(plan.attachments[0].output_index, 2);
            assert!(value(&plan, "-pix_fmt:2").is_none());
            assert!(value(&plan, "-hwaccel:3").is_none());
            let input = plan.args.iter().position(|a| a == "-i").unwrap();
            assert!(plan.args[..input].iter().any(|a| a == "-hwaccel:9"));
        }
    }
    for device in [None, Some("/dev/dri/renderD128"), Some("/dev/dri/renderD129")] {
        let plan = TranscodeRequest::mkv("input".to_string(), "output".to_string())
            .with_video(encoders[1].clone())
            .with_decoding(DecodingBackend::Vaapi(device.map(str::to_string)))
            .build(&media, &[])
            .unwrap();
        assert_eq!(value(&plan, "-hwaccel_device:9"), Some(device.unwrap_or("/dev/dri/renderD128")));
        assert_eq!(
            value(&plan, "-filter:1"),
            if device == Some("/dev/dri/renderD129") {
                Some("hwdownload,format=p010le,hwupload")
            } else {
                None
            }
        );
    }
}

#[test]
fn only_equivalent_layouts_are_selected_and_ffmpeg_owns_rejection() {
    for (input, supported, target, filter) in [
        ("yuv420p10le", "p010le", "+p010le", Some("format=yuv420p10le,scale=iw:ih,format=p010le")),
        ("yuv444p12le", "yuv420p10le", "+yuv444p12le", None),
        ("rgb24", "yuv444p", "+rgb24", None),
        ("rgb24", "gbrp", "+gbrp", Some("format=rgb24,scale=iw:ih,format=gbrp")),
        ("rgb565le", "rgb24", "+rgb565le", None),
        ("rgb565le", "rgb565be", "+rgb565be", Some("format=rgb565le,scale=iw:ih,format=rgb565be")),
        ("pal8", "yuv420p", "+pal8", None),
        ("yuva420p", "yuv420p", "+yuva420p", None),
        ("gray", "yuv420p", "+gray", None),
    ] {
        let media = media(vec![video(0, input)]);
        let plan = TranscodeRequest::mkv("input".to_string(), "output".to_string())
            .with_video(VideoAction::encode_x264(None, None))
            .build(&media, &strings(&[supported]))
            .unwrap();
        assert_eq!(value(&plan, "-pix_fmt:0"), Some(target));
        assert_eq!(value(&plan, "-filter:0"), filter);
    }
}

#[test]
fn missing_descriptors_and_unknown_demuxers_are_refused() {
    let media = media(vec![video(3, "weird")]);
    let error = TranscodeRequest::mkv("input".to_string(), "output".to_string())
        .with_video(VideoAction::encode_x264(None, None))
        .build(&media, &[])
        .unwrap_err();
    assert!(matches!(
        error,
        yog::plan::PlanError::MissingPixelFormat { stream_index: 3, format: Some(ref f) } if f == "weird"
    ));
    let mut nut = media_with(Vec::new());
    nut.format = format(Some("nut"));
    let error = TranscodeRequest::new("video.nut".to_string(), "out".to_string()).build(&nut, &[]).unwrap_err();
    assert!(matches!(error, yog::plan::PlanError::UnsupportedContainer { format: Some(ref f) } if f == "nut"));
}

#[test]
fn encoder_formats_are_queried_only_without_a_direct_hardware_path() {
    let media = media(vec![video(0, "yuv420p")]);
    let x264 = TranscodeRequest::mkv("in".to_string(), "out".to_string()).with_video(VideoAction::encode_x264(None, None));
    assert_eq!(x264.encoder_query(&media), Some("libx264"));
    let nvenc = TranscodeRequest::mkv("in".to_string(), "out".to_string())
        .with_video(VideoAction::encode_nvenc(VideoCodec::H264, None, None, None))
        .with_decoding(DecodingBackend::Cuda(None));
    assert_eq!(nvenc.encoder_query(&media), None);
    let copy = TranscodeRequest::mkv("in".to_string(), "out".to_string());
    assert_eq!(copy.encoder_query(&media), None);
}

#[test]
fn every_container_is_read_back_from_its_own_extension() {
    let mp4 = "mov,mp4,m4a,3gp,3g2,mj2";
    for (c, family) in [
        (Container::Matroska, "matroska,webm"),
        (Container::Webm, "matroska,webm"),
        (Container::Mp4, mp4),
        (Container::Mov, mp4),
        (Container::M4a, mp4),
        (Container::ThreeGp, mp4),
        (Container::ThreeG2, mp4),
        (Container::F4v, mp4),
        (Container::Ismv, mp4),
        (Container::Psp, mp4),
        (Container::MpegTs, "mpegts"),
        (Container::M2ts, "mpegts"),
        (Container::Avi, "avi"),
        (Container::Flv, "flv"),
        (Container::Asf, "asf"),
        (Container::Wmv, "asf"),
        (Container::MpegPs, "mpeg"),
        (Container::Vob, "mpeg"),
        (Container::Ogg, "ogg"),
        (Container::Ogv, "ogg"),
    ] {
        let path = format!("dir/video.{}", c.extension());
        assert_eq!(Container::from_input(&path, Some(family)), Some(c), "{path}");
    }
}

#[test]
fn planning_errors_read_as_the_command_line_reports_them() {
    assert_eq!(
        PlanError::UnsupportedContainer { format: Some("nut".into()) }.message(),
        r#"cannot use input format Some("nut") as an output container; specify a container"#
    );
    assert_eq!(
        PlanError::MissingPixelFormat { stream_index: 2, format: None }.message(),
        "stream 2: ffprobe has no descriptor for pixel format None"
    );
}
