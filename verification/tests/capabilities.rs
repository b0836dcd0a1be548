use yog::capabilities::parse_encoder_help;

#[test]
fn distinguishes_missing_pixel_formats_from_invalid_encoder() {
    let help = parse_encoder_help(
        "Encoder ffv1 [FFmpeg video codec #1]:\n    Supported pixel formats: yuv420p yuv420p10le\n",
    )
    .unwrap();
    assert_eq!(help.pixel_formats.unwrap(), ["yuv420p", "yuv420p10le"]);
    assert!(parse_encoder_help("Encoder pcm_s16le [PCM]:\n").unwrap().pixel_formats.is_none());
    assert!(parse_encoder_help("Codec 'missing' is not recognized by FFmpeg.").is_err());
}

#[test]
fn encoder_help_reports_the_heading_name_and_error_text() {
    let help = parse_encoder_help("\nEncoder libx264 [libx264 H.264]:\r\n  Supported pixel formats:\r\n").unwrap();
    assert_eq!(help.name, "libx264");
    assert_eq!(help.pixel_formats, Some(Vec::<String>::new()));
    assert_eq!(
        parse_encoder_help("Encoder \n").unwrap_err(),
        "FFmpeg encoder help has no encoder heading"
    );
}
