use yog::decoding::DecodingBackend;
use yog::outcome::{same_path, PathKind, RunError, SourcePicker};

#[test]
fn picker_accepts_files_and_allowed_folders() {
    let mut picker = SourcePicker::new();
    assert_eq!(picker.path(), None);
    picker.set_path("/videos/a.mkv".to_string(), PathKind::File);
    assert_eq!(picker.path(), Some("/videos/a.mkv"));
    assert!(!picker.is_directory());
    assert_eq!(picker.error(), None);

    picker.set_path("/videos".to_string(), PathKind::Directory);
    assert_eq!(picker.valid_path(), Some("/videos"));
    assert!(picker.is_directory());

    picker.set_allow_directory(false);
    assert_eq!(picker.path(), Some("/videos"));
    assert_eq!(picker.valid_path(), None);
}

#[test]
fn picker_refuses_missing_paths_and_forbidden_folders_with_a_message() {
    let mut picker = SourcePicker::new();
    picker.set_path("/videos/a.mkv".to_string(), PathKind::File);
    picker.set_path("/gone.mkv".to_string(), PathKind::Missing);
    assert_eq!(picker.error(), Some("Cannot open /gone.mkv"));
    assert_eq!(picker.path(), Some("/videos/a.mkv"));

    picker.set_allow_directory(false);
    assert_eq!(picker.error(), None);
    picker.set_path("/videos".to_string(), PathKind::Directory);
    assert_eq!(picker.error(), Some("This workflow requires a video file"));
    assert_eq!(picker.path(), Some("/videos/a.mkv"));

    assert!(picker.choose_source(false));
    assert!(!picker.choose_source(true));
    assert_eq!(picker.error(), Some("This workflow requires a video file"));
    picker.set_allow_directory(true);
    assert!(picker.choose_source(true));
}

#[test]
fn paths_are_the_same_when_equal_or_resolving_alike() {
    assert!(same_path("a.mkv", "a.mkv", None, None));
    assert!(same_path("./a.mkv", "/w/a.mkv", Some("/w/a.mkv"), Some("/w/a.mkv")));
    assert!(!same_path("./a.mkv", "/w/a.mkv", None, Some("/w/a.mkv")));
    assert!(!same_path("a.mkv", "b.mkv", Some("/w/a.mkv"), Some("/w/b.mkv")));
    assert!(same_path("a/b/", "a/b", None, None));
    assert!(same_path("a//./b", "a/b", None, None));
    assert!(same_path("./a", "./a/", None, None));
    assert!(!same_path("./a", "a", None, None));
    assert!(!same_path("/a", "a", None, None));
    assert!(same_path("x", "y", Some("/w//v/"), Some("/w/v")));
}

#[test]
fn cancellation_is_reported_apart_from_failures() {
    assert!(matches!(RunError::from_failure(true, "killed".to_string()), RunError::Cancelled));
    assert!(matches!(
        RunError::from_failure(false, "exit status 1".to_string()),
        RunError::Failed(m) if m == "exit status 1"
    ));
}

#[test]
fn decoders_read_back_as_text() {
    assert_eq!(DecodingBackend::from_str("software").unwrap().to_text(), "software");
    assert_eq!(DecodingBackend::from_str("vaapi=/dev/dri/renderD129").unwrap().to_text(), "vaapi:/dev/dri/renderD129");
    assert_eq!(DecodingBackend::from_str("cuda").unwrap().to_text(), "cuda");
    assert_eq!(DecodingBackend::from_str("qsv=").unwrap().to_text(), "qsv");
    assert_eq!(DecodingBackend::from_str("opencl").unwrap_err(), "unknown decoder opencl");
    assert_eq!(DecodingBackend::from_str("software=1").unwrap_err(), "unknown decoder software=1");
}
