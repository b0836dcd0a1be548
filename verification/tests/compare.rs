use yog::compare::{compare_structure, Field, Finding, Scope};
use yog::warning::{fits, quoted_text, structure_warnings, warning};
use yog::media::{Chapter, MediaFormat, MediaInfo, MediaStream, PixelComponent, PixelFormat, PixelFormatFlags, Tags};
use yog::plan::{TranscodePlan, TranscodeRequest};

fn tags(pairs: &[(&str, &str)]) -> Tags {
    let mut t = Tags::new();
    for (k, v) in pairs {
        t.insert(k.to_string(), v.to_string());
    }
    t
}

fn stream(index: usize, codec_type: &str) -> MediaStream {
    MediaStream {
        index,
        codec_name: None,
        codec_long_name: None,
        profile: None,
        codec_type: Some(codec_type.to_string()),
        codec_tag_string: None,
        width: None,
        height: None,
        sample_aspect_ratio: None,
        display_aspect_ratio: None,
        pix_fmt: None,
        level: None,
        color_range: None,
        color_space: None,
        color_transfer: None,
        color_primaries: None,
        chroma_location: None,
        field_order: None,
        r_frame_rate: None,
        avg_frame_rate: None,
        time_base: None,
        start_time: None,
        duration: None,
        bit_rate: None,
        sample_fmt: None,
        sample_rate: None,
        channels: None,
        channel_layout: None,
        bits_per_sample: None,
        bits_per_raw_sample: None,
        extradata_size: None,
        extradata_hash: None,
        disposition: Vec::new(),
        tags: Tags::new(),
        side_data_list: Vec::new(),
    }
}

fn descriptor(name: &str, nb: u8, w: u8, h: u8, palette: u8, depths: &[u8]) -> PixelFormat {
    PixelFormat {
        name: name.to_string(),
        nb_components: nb,
        log2_chroma_w: Some(w),
        log2_chroma_h: Some(h),
        flags: PixelFormatFlags { rgb: 0, alpha: 0, palette, hwaccel: 0 },
        components: depths.iter().map(|&bit_depth| PixelComponent { bit_depth }).collect(),
    }
}

fn chapter(start: Option<&str>, end: Option<&str>, t: Tags) -> Chapter {
    Chapter {
        id: None,
        time_base: None,
        start: None,
        end: None,
        start_time: start.map(str::to_string),
        end_time: end.map(str::to_string),
        tags: t,
    }
}

fn media(streams: Vec<MediaStream>, format_tags: Tags, chapters: Vec<Chapter>) -> MediaInfo {
    MediaInfo {
        streams,
        chapters,
        programs: Vec::new(),
        format: MediaFormat {
            filename: None,
            format_name: None,
            format_long_name: None,
            start_time: None,
            duration: None,
            size: None,
            bit_rate: None,
            tags: format_tags,
        },
        pixel_formats: vec![
            descriptor("yuv420p", 3, 1, 1, 0, &[8, 8, 8]),
            descriptor("yuv420p10le", 3, 1, 1, 0, &[10, 10, 10]),
            descriptor("p010le", 3, 1, 1, 0, &[10, 10, 10]),
            descriptor("yuv444p12le", 3, 0, 0, 0, &[12, 12, 12]),
            descriptor("pal8", 1, 0, 0, 1, &[8]),
        ],
    }
}

fn with(mut s: MediaStream, f: impl FnOnce(&mut MediaStream)) -> MediaStream {
    f(&mut s);
    s
}

fn render(before: &MediaInfo, after: &MediaInfo, plan: &TranscodePlan, finding: Finding) -> String {
    assert!(fits(before, after, plan, finding));
    warning(before, after, plan, finding)
}

#[test]
fn matching_handles_renumbering_cover_relocation_and_equivalent_pixel_layouts() {
    let cover = |index| {
        with(stream(index, "video"), |s| {
            s.codec_name = Some("mjpeg".into());
            s.pix_fmt = Some("yuv420p".into());
            s.disposition = vec![("attached_pic".into(), 1)];
        })
    };
    let audio = |index, codec: &str, t: Tags| with(stream(index, "audio"), |s| {
        s.codec_name = Some(codec.into());
        s.tags = t;
    });
    let video = |index, codec: &str, pix: &str| with(stream(index, "video"), |s| {
        s.codec_name = Some(codec.into());
        s.pix_fmt = Some(pix.into());
    });
    let before = media(
        vec![
            cover(9),
            audio(5, "aac", tags(&[("language", "jpn")])),
            video(11, "hevc", "yuv420p10le"),
            audio(15, "flac", tags(&[("language", "eng")])),
        ],
        tags(&[("title", "unchanged")]),
        vec![Chapter { id: Some(10), time_base: Some("1/1000".into()), start: Some(500), ..chapter(Some("0.500000"), Some("1.000000"), Tags::new()) }],
    );
    let after = media(
        vec![
            with(audio(0, "aac", tags(&[("LANGUAGE", "jpn")])), |s| s.disposition = vec![("default".into(), 0)]),
            video(1, "h264", "p010le"),
            audio(2, "flac", tags(&[("language", "eng")])),
            cover(3),
        ],
        tags(&[("TITLE", "unchanged")]),
        vec![Chapter { id: Some(0), time_base: Some("1/1000000".into()), start: Some(500000), ..chapter(Some("0.500000"), Some("1.000000"), Tags::new()) }],
    );
    let plan = TranscodeRequest::mp4("input".into(), "output".into()).build(&before, &[]).unwrap();
    let (warnings, pairs) = structure_warnings(&before, &after, false, &plan);
    assert!(warnings.is_empty(), "{warnings:#?}");
    assert_eq!(
        pairs.iter().map(|&(a, b)| (before.streams[a].index, after.streams[b].index)).collect::<Vec<_>>(),
        [(9, 3), (5, 0), (15, 2)]
    );
    let (warnings, _) = structure_warnings(&before, &after, true, &plan);
    let (findings, _) = compare_structure(&before, &after, true, &plan);
    assert_eq!(findings.len(), warnings.len());
    assert!(warnings.iter().any(|warning| warning.contains("codec_name")));
    assert_eq!(warnings, [r#"video stream #11 -> #1, codec_name: Some("hevc") -> Some("h264")"#]);
}

#[test]
fn lost_streams_metadata_chapters_and_sample_changes_are_reported_individually() {
    let before = media(
        vec![
            with(stream(0, "video"), |s| {
                s.pix_fmt = Some("yuv444p12le".into());
                s.color_transfer = Some("smpte2084".into());
            }),
            with(stream(1, "subtitle"), |s| s.tags = tags(&[("language", "eng")])),
            with(stream(2, "attachment"), |s| {
                s.extradata_size = Some(3);
                s.extradata_hash = Some("SHA256:before".into());
            }),
            with(stream(3, "video"), |s| {
                s.pix_fmt = Some("yuv420p".into());
                s.disposition = vec![("attached_pic".into(), 1)];
            }),
            with(stream(4, "audio"), |s| {
                s.channels = Some(2);
                s.sample_rate = Some("48000".into());
                s.tags = tags(&[("title", "commentary")]);
            }),
        ],
        tags(&[("title", "original"), ("ENCODER", "old")]),
        vec![chapter(Some("0.000000"), Some("1.000000"), tags(&[("title", "chapter")])), chapter(None, None, Tags::new())],
    );
    let after = media(
        vec![
            with(stream(0, "video"), |s| s.pix_fmt = Some("yuv420p".into())),
            with(stream(1, "attachment"), |s| {
                s.extradata_size = Some(3);
                s.extradata_hash = Some("SHA256:after".into());
            }),
            with(stream(2, "audio"), |s| {
                s.channels = Some(1);
                s.sample_rate = Some("44100".into());
                s.tags = tags(&[("title", "main")]);
            }),
            stream(3, "data"),
        ],
        tags(&[("encoder", "new"), ("comment", "added")]),
        vec![chapter(Some("0.000000"), Some("0.500000"), Tags::new())],
    );
    let plan = TranscodeRequest::mp4("input".into(), "output".into()).build(&before, &[]).unwrap();
    let (warnings, _) = structure_warnings(&before, &after, false, &plan);
    for expected in [
        "subtitle stream #1: missing",
        "cover stream #3: missing",
        "data stream #3: added",
        "component bit depths",
        "chroma",
        "color_transfer",
        "extradata_hash",
        "channels",
        "sample_rate",
        "chapters, count",
        "chapter #0, end_time",
        "metadata \"title\"",
        "metadata \"ENCODER\"",
        "metadata \"comment\"",
    ] {
        assert!(warnings.iter().any(|warning| warning.contains(expected)), "{expected}: {warnings:#?}");
    }
    let unknown = media(
        vec![with(stream(0, "video"), |s| s.pix_fmt = Some("pal8".into()))],
        Tags::new(),
        Vec::new(),
    );
    let (warnings, _) = structure_warnings(&unknown, &unknown, false, &plan);
    assert!(warnings.iter().any(|warning| warning.contains("cannot verify bit depth")));
}

#[test]
fn tag_and_field_warnings_name_both_values() {
    let before = media(Vec::new(), tags(&[("ENCODER", "old"), ("title", "original")]), Vec::new());
    let after = media(Vec::new(), tags(&[("comment", "added"), ("encoder", "new")]), Vec::new());
    let plan = TranscodeRequest::mp4("input".into(), "output".into()).build(&before, &[]).unwrap();
    let (warnings, _) = structure_warnings(&before, &after, false, &plan);
    assert_eq!(
        warnings,
        [
            r#"container, metadata "ENCODER": Some("old") -> Some("new")"#,
            r#"container, metadata "title": Some("original") -> None"#,
            r#"container, metadata "comment": added "added""#,
        ]
    );
    assert_eq!(
        render(&before, &after, &plan, Finding::Changed(Scope::Chapters, Field::Count)),
        "chapters, count: 0 -> 0"
    );
}

#[test]
fn debug_renderings_escape_quotes_backslashes_and_control_characters() {
    assert_eq!(quoted_text("a\"b\\c\n\t\r\0\u{1b}\u{7f}é"), r#""a\"b\\c\n\t\r\0\u{1b}\u{7f}é""#);
}
