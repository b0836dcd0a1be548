use yog::decoding::DecodingBackend;
use yog::encoding::{Preset, RateControl, VideoCodec, VideoEncoding};
use yog::form::{rate_choice, vmaf_choice, PredictSettings, TranscodeSettings, VideoInputs};
use yog::plan::{Container, VideoAction};
use yog::quality::VmafMode;

fn video(encoder: &str, preset: &str) -> VideoInputs {
    VideoInputs {
        decoder: "Software".to_string(),
        decode_device: String::new(),
        encoder: encoder.to_string(),
        preset: preset.to_string(),
        multipass: "Default".to_string(),
        encode_device: "/dev/dri/renderD128".to_string(),
    }
}

fn settings() -> TranscodeSettings {
    TranscodeSettings {
        input: Some("movie.mkv".to_string()),
        directory: false,
        output: "  out.mkv  ".to_string(),
        video: video("libx264", "medium"),
        encode: true,
        rate: "Quality".to_string(),
        quality: " 23 ".to_string(),
        bitrate: String::new(),
        container: "Auto".to_string(),
        overwrite: true,
        vmaf: "Off".to_string(),
        n_subsample: "5".to_string(),
    }
}

#[test]
fn rate_fields_parse_trimmed_quality_and_positive_bitrate() {
    assert_eq!(rate_choice("Quality", " 30 ", ""), Ok(Some(RateControl::Quality(30))));
    assert_eq!(
        rate_choice("Quality", "256", ""),
        Err("Quality must be an integer from 0 to 255".to_string())
    );
    assert_eq!(rate_choice("Bitrate", "", "+5000"), Ok(Some(RateControl::Bitrate(5000))));
    assert_eq!(
        rate_choice("Bitrate", "", "0"),
        Err("Bitrate must be an integer greater than zero".to_string())
    );
    assert_eq!(rate_choice("Encoder default", "x", "y"), Ok(None));
}

#[test]
fn vmaf_fields_select_full_or_a_positive_subsample() {
    assert_eq!(vmaf_choice("Off", "0"), Ok(None));
    assert_eq!(vmaf_choice("Full", "0"), Ok(Some(VmafMode::Full)));
    assert_eq!(vmaf_choice("Subsample", " 4 "), Ok(Some(VmafMode::Subsample(4))));
    assert_eq!(
        vmaf_choice("Subsample", "0"),
        Err("N subsample must be an integer greater than zero".to_string())
    );
}

#[test]
fn transcode_form_builds_the_request_its_fields_name() {
    let run = settings().build().unwrap();
    assert_eq!(run.request.input, "movie.mkv");
    assert_eq!(run.request.output, "out.mkv");
    assert!(run.request.overwrite);
    assert_eq!(run.request.container, None);
    assert!(matches!(run.request.decoding, DecodingBackend::Software));
    assert!(matches!(
        run.request.video,
        VideoAction::Encode(VideoEncoding::X264 {
            rate: Some(RateControl::Quality(23)),
            preset: Some(Preset::Medium),
        })
    ));
    assert!(!run.recursive);
    assert_eq!(run.vmaf, None);

    let mut copy = settings();
    copy.encode = false;
    copy.container = "WebM".to_string();
    copy.vmaf = "Subsample".to_string();
    copy.directory = true;
    let run = copy.build().unwrap();
    assert!(matches!(run.request.video, VideoAction::Copy));
    assert_eq!(run.request.container, Some(Container::Webm));
    assert_eq!(run.vmaf, Some(VmafMode::Subsample(5)));
    assert!(run.recursive);
}

#[test]
fn transcode_form_refuses_in_field_order() {
    let mut s = settings();
    s.input = None;
    s.output = " ".to_string();
    assert_eq!(s.build().err(), Some("Select an input file or folder".to_string()));

    let mut s = settings();
    s.output = "   ".to_string();
    assert!(!s.has_output());
    assert_eq!(s.build().err(), Some("Choose an output file or folder".to_string()));

    let mut s = settings();
    s.quality = "fast".to_string();
    assert_eq!(s.build().err(), Some("Quality must be an integer from 0 to 255".to_string()));

    let mut s = settings();
    s.quality = "60".to_string();
    assert_eq!(s.build().err(), Some("libx264 quality must be in 0..=51, got 60".to_string()));

    let mut s = settings();
    s.vmaf = "Subsample".to_string();
    s.n_subsample = "none".to_string();
    assert_eq!(
        s.build().err(),
        Some("N subsample must be an integer greater than zero".to_string())
    );
}

#[test]
fn vaapi_encoder_takes_the_trimmed_device_from_the_form() {
    let mut s = settings();
    s.video = video("hevc_vaapi", "");
    s.video.encode_device = " /dev/dri/renderD129 ".to_string();
    s.quality = "52".to_string();
    let run = s.build().unwrap();
    assert!(matches!(
        run.request.video,
        VideoAction::Encode(VideoEncoding::Vaapi {
            codec: VideoCodec::Hevc,
            rate: Some(RateControl::Quality(52)),
            ref device,
        }) if device == "/dev/dri/renderD129"
    ));
}

#[test]
fn prediction_form_encodes_without_an_output() {
    let mut p = PredictSettings {
        input: Some("clips".to_string()),
        directory: true,
        video: video("libsvtav1", "6"),
        rate: "Encoder default".to_string(),
        quality: String::new(),
        bitrate: String::new(),
        container: "Matroska".to_string(),
    };
    let run = p.build().unwrap();
    assert_eq!(run.request.output, "");
    assert!(run.recursive);
    assert_eq!(run.request.container, Some(Container::Matroska));
    assert!(matches!(
        run.request.video,
        VideoAction::Encode(VideoEncoding::SvtAv1 { rate: None, preset: Some(6) })
    ));

    p.rate = "Quality".to_string();
    p.quality = "64".to_string();
    assert_eq!(p.build().err(), Some("libsvtav1 quality must be in 0..=63, got 64".to_string()));
    p.input = None;
    assert_eq!(p.build().err(), Some("Select a video file or folder".to_string()));
}
