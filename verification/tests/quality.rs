use yog::decoding::DecodingBackend;
use yog::encoding::{RateControl, VideoCodec, VideoEncoding};
use yog::quality::{
    merge_quality_points, parse_candidate, parse_quality_points, validate_encoding, VmafMode,
};

fn qualities(ranges: &[&str]) -> Vec<u8> {
    let lists: Vec<Vec<u8>> = ranges.iter().map(|r| parse_quality_points(r).unwrap()).collect();
    merge_quality_points(&lists)
}

#[test]
fn quality_points_expand_merge_sort_and_deduplicate() {
    assert_eq!(qualities(&[""]), Vec::<u8>::new());
    assert_eq!(qualities(&["  "]), Vec::<u8>::new());
    assert_eq!(qualities(&["20"]), vec![20]);
    assert_eq!(qualities(&["20,22"]), vec![20, 22]);
    assert_eq!(qualities(&["20-22"]), vec![20, 21, 22]);
    assert_eq!(qualities(&["20-22,25"]), vec![20, 21, 22, 25]);
    assert_eq!(qualities(&["20-25,23-30"]), (20..=30).collect::<Vec<u8>>());
    assert_eq!(qualities(&["30,10-12,30"]), vec![10, 11, 12, 30]);
    assert_eq!(qualities(&["20-20"]), vec![20]);
    assert_eq!(qualities(&[" 20 - 22 , 25 "]), vec![20, 21, 22, 25]);
    assert_eq!(qualities(&["0-255"]), (0..=255).collect::<Vec<u8>>());
    assert_eq!(qualities(&["18-20", "25,20"]), vec![18, 19, 20, 25]);
}

#[test]
fn quality_points_reject_malformed_ranges() {
    for range in ["-", "20-", "-20", "20-22-24", "20,,25", "256", "20,256", "30-20", "20-20-21"] {
        assert!(parse_quality_points(range).is_err(), "{range}");
    }
    assert_eq!(
        parse_quality_points("20,,25").unwrap_err(),
        "expected QUALITY or FIRST-LAST items separated by commas, got 20,,25"
    );
}

fn assert_candidate(
    value: &str,
    decoding: &str,
    encoder: &str,
    preset: Option<&str>,
    multipass: Option<&str>,
    qualities: &[u8],
) {
    let candidate = parse_candidate(value).unwrap();
    assert_eq!(candidate.decoding.to_text(), decoding);
    assert_eq!(candidate.encoding.name(), encoder);
    assert_eq!(candidate.encoding.preset().as_deref(), preset);
    assert_eq!(candidate.encoding.multipass(), multipass);
    assert_eq!(candidate.qualities, qualities);
}

#[test]
fn candidates_carry_decoder_encoder_knobs_and_points() {
    assert_candidate("vaapi:libsvtav1:7:2-4", "vaapi", "libsvtav1", Some("7"), None, &[2, 3, 4]);
    assert_candidate(
        "vaapi=/dev/dri/renderD129:hevc_nvenc:p5:20-21:qres",
        "vaapi:/dev/dri/renderD129",
        "hevc_nvenc",
        Some("p5"),
        Some("qres"),
        &[20, 21],
    );
    assert_candidate("software:libx264:medium:0,3", "software", "libx264", Some("medium"), None, &[0, 3]);
    assert_candidate(":hevc_nvenc::20-22", "software", "hevc_nvenc", None, None, &[20, 21, 22]);
    assert_candidate("cuda=0:av1_qsv:slow:5", "cuda:0", "av1_qsv", Some("slow"), None, &[5]);
    assert_candidate("qsv=1:libaom-av1:6:7", "qsv:1", "libaom-av1", Some("6"), None, &[7]);

    let candidate = parse_candidate("software:h264_vaapi=/dev/dri/renderD129::5").unwrap();
    assert!(
        matches!(
            candidate.encoding,
            VideoEncoding::Vaapi { ref device, .. } if device == "/dev/dri/renderD129"
        ),
        "{candidate:?}"
    );
}

#[test]
fn candidate_parser_rejects_ignored_or_extra_fields() {
    assert!(parse_candidate("software:libx264:medium:20:garbage").is_err());
    assert!(parse_candidate("software:libx264:medium:20:garbage:extra").is_err());
    assert!(parse_candidate("software:libx264=/dev/dri/renderD128:medium:20").is_err());
    assert!(parse_candidate("software:libx264=:medium:20").is_err());
    assert!(parse_candidate("software:h264_nvenc=1:p5:20").is_err());
    assert!(parse_candidate("software=:libx264:medium:20").is_err());
    assert!(parse_candidate("software:libx264:medium:20:qres").is_err());
    assert_eq!(
        parse_candidate("software:libx264").unwrap_err(),
        "expected DECODE:ENCODE:PRESET:RANGE[:MULTIPASS], got software:libx264"
    );
    assert_eq!(
        parse_candidate("software:libx264:medium:20:qres").unwrap_err(),
        "multipass is only supported by NVENC"
    );
}

#[test]
fn quality_ranges_match_the_selected_ffmpeg_encoder() {
    let q = |n| Some(RateControl::Quality(n));
    for encoding in [
        VideoEncoding::X264 { rate: q(51), preset: None },
        VideoEncoding::X265 { rate: q(51), preset: None },
        VideoEncoding::SvtAv1 { rate: q(63), preset: None },
        VideoEncoding::AomAv1 { rate: q(63), cpu_used: None },
        VideoEncoding::Rav1e { rate: q(255), speed: None },
        VideoEncoding::Nvenc { codec: VideoCodec::H264, rate: q(51), preset: None, multipass: None },
        VideoEncoding::Nvenc { codec: VideoCodec::Av1, rate: q(63), preset: None, multipass: None },
        VideoEncoding::Qsv { codec: VideoCodec::Hevc, rate: q(1), preset: None },
        VideoEncoding::Qsv { codec: VideoCodec::Av1, rate: q(51), preset: None },
        VideoEncoding::Vaapi { codec: VideoCodec::H264, rate: q(52), device: "/dev/dri/renderD128".into() },
        VideoEncoding::Vaapi { codec: VideoCodec::Av1, rate: q(255), device: "/dev/dri/renderD128".into() },
    ] {
        assert!(validate_encoding(encoding.clone()).is_ok(), "{encoding:?}");
    }
    for (encoding, expected) in [
        (VideoEncoding::X264 { rate: q(52), preset: None }, "libx264 quality must be in 0..=51, got 52"),
        (VideoEncoding::X265 { rate: q(52), preset: None }, "libx265 quality must be in 0..=51, got 52"),
        (VideoEncoding::SvtAv1 { rate: q(64), preset: None }, "libsvtav1 quality must be in 0..=63, got 64"),
        (VideoEncoding::AomAv1 { rate: q(64), cpu_used: None }, "libaom-av1 quality must be in 0..=63, got 64"),
        (
            VideoEncoding::Nvenc { codec: VideoCodec::Hevc, rate: q(52), preset: None, multipass: None },
            "hevc_nvenc quality must be in 0..=51, got 52",
        ),
        (
            VideoEncoding::Nvenc { codec: VideoCodec::Av1, rate: q(64), preset: None, multipass: None },
            "av1_nvenc quality must be in 0..=63, got 64",
        ),
        (VideoEncoding::Qsv { codec: VideoCodec::H264, rate: q(0), preset: None }, "h264_qsv quality must be in 1..=51, got 0"),
        (VideoEncoding::Qsv { codec: VideoCodec::Av1, rate: q(52), preset: None }, "av1_qsv quality must be in 1..=51, got 52"),
        (
            VideoEncoding::Vaapi { codec: VideoCodec::Hevc, rate: q(53), device: "/dev/dri/renderD128".into() },
            "hevc_vaapi quality must be in 0..=52, got 53",
        ),
    ] {
        assert_eq!(validate_encoding(encoding).unwrap_err(), expected);
    }
}

#[test]
fn vmaf_rejects_zero_and_accepts_full_in_any_case() {
    assert_eq!(VmafMode::from_str("FULL"), Ok(VmafMode::Full));
    assert_eq!(VmafMode::from_str("4"), Ok(VmafMode::Subsample(4)));
    assert_eq!(VmafMode::from_str("0").unwrap_err(), "expected 'full' or an integer greater than 0");
    assert!(VmafMode::from_str("half").is_err());
    assert_eq!(VmafMode::Subsample(3).n_subsample(), Some(3));
}

#[test]
fn decoders_are_named_with_an_optional_device() {
    assert!(matches!(DecodingBackend::from_str(""), Ok(DecodingBackend::Software)));
    assert!(matches!(DecodingBackend::from_str("vaapi="), Ok(DecodingBackend::Vaapi(None))));
    assert_eq!(DecodingBackend::from_str("opencl").unwrap_err(), "unknown decoder opencl");
    assert_eq!(DecodingBackend::Cuda(Some("1".into())).to_text(), "cuda:1");
}

#[test]
fn candidate_refusals_name_the_first_field_that_fails() {
    let err = |v: &str| parse_candidate(v).err().unwrap();
    assert_eq!(err("a:b:c"), "expected DECODE:ENCODE:PRESET:RANGE[:MULTIPASS], got a:b:c");
    assert_eq!(err("opencl:libx264:medium:20"), "unknown decoder opencl");
    assert_eq!(err("software:libx999:medium:20"), "unknown encoder libx999");
    assert_eq!(err("software:libsvtav1:14:20"), "14 is not in 0..=13");
    assert_eq!(err("software:libx264:medium:20:qres"), "multipass is only supported by NVENC");
    assert_eq!(err("software:h264_nvenc:p5:20:fast"), "unknown NVENC multipass mode fast");
    assert!(parse_candidate("software:h264_nvenc:p5:20:fullres").is_ok());
}
