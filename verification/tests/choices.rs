use yog::choices::{container, decoding, default_preset, encoding, presets};
use yog::encoding::{NvencMultipass, NvencPreset, Preset, VideoCodec, VideoEncoding};
use yog::decoding::DecodingBackend;
use yog::plan::Container;

#[test]
fn container_labels_map_to_containers_and_auto_keeps_the_input() {
    assert_eq!(container("Auto"), None);
    assert_eq!(container("Matroska"), Some(Container::Matroska));
    assert_eq!(container("MPEG-TS"), Some(Container::MpegTs));
    assert_eq!(container("MPEG-PS"), Some(Container::MpegPs));
    assert_eq!(container("OGV"), Some(Container::Ogv));
}

#[test]
fn decoder_labels_take_the_trimmed_device() {
    assert!(matches!(decoding("Software", " /dev/dri/renderD128 "), DecodingBackend::Software));
    assert!(matches!(decoding("VAAPI", " /dev/dri/renderD129 "), DecodingBackend::Vaapi(Some(ref d)) if d == "/dev/dri/renderD129"));
    assert!(matches!(decoding("CUDA", "   "), DecodingBackend::Cuda(None)));
    assert!(matches!(decoding("QSV", "1"), DecodingBackend::Qsv(Some(ref d)) if d == "1"));
}

#[test]
fn presets_follow_the_encoder_and_start_at_its_default() {
    let x264 = presets("libx264");
    assert_eq!(x264.len(), 9);
    assert_eq!(x264[default_preset("libx264")], "medium");
    assert_eq!(presets("libsvtav1")[default_preset("libsvtav1")], "6");
    assert_eq!(presets("libaom-av1")[default_preset("libaom-av1")], "4");
    assert_eq!(presets("librav1e")[default_preset("librav1e")], "6");
    assert_eq!(presets("hevc_nvenc")[default_preset("hevc_nvenc")], "p4");
    assert_eq!(presets("av1_qsv")[default_preset("av1_qsv")], "medium");
    assert!(presets("h264_vaapi").is_empty());
    assert_eq!(presets("libsvtav1").last(), Some(&"13"));
}

#[test]
fn encoder_fields_build_the_encoding_they_name() {
    assert!(matches!(
        encoding("libx264", "medium", "Default", ""),
        VideoEncoding::X264 { rate: None, preset: Some(Preset::Medium) }
    ));
    assert!(matches!(
        encoding("libsvtav1", "6", "Disabled", ""),
        VideoEncoding::SvtAv1 { rate: None, preset: Some(6) }
    ));
    assert!(matches!(
        encoding("hevc_nvenc", "p7", "Quarter resolution", ""),
        VideoEncoding::Nvenc {
            codec: VideoCodec::Hevc,
            rate: None,
            preset: Some(NvencPreset::P7),
            multipass: Some(NvencMultipass::QuarterResolution),
        }
    ));
    assert!(matches!(
        encoding("av1_nvenc", "p1", "Default", ""),
        VideoEncoding::Nvenc { multipass: None, .. }
    ));
    let vaapi = encoding("h264_vaapi", "", "Full resolution", "  /dev/dri/renderD129 ");
    assert!(matches!(vaapi, VideoEncoding::Vaapi { codec: VideoCodec::H264, rate: None, ref device } if device == "/dev/dri/renderD129"));
}

#[test]
fn every_offered_encoder_parses_to_the_encoding_the_form_starts_from() {
    for name in [
        "libx264", "libx265", "libsvtav1", "libaom-av1", "librav1e", "h264_nvenc", "hevc_nvenc",
        "av1_nvenc", "h264_qsv", "hevc_qsv", "av1_qsv", "h264_vaapi", "hevc_vaapi", "av1_vaapi",
    ] {
        let parsed = VideoEncoding::from_str(name).unwrap();
        assert_eq!(parsed.name(), name);
        assert_eq!(parsed.rate(), None);
        assert_eq!(parsed.preset(), None);
        assert_eq!(encoding(name, "", "Default", "").name(), name);
    }
}
