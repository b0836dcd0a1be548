use yog::media::{
    eq_ignoring_ascii_case, flag_of, opt_is, Chroma, PixelComponent, PixelFormat, PixelFormatFlags, Tags,
};

fn pixel_format(name: &str, components: u8, chroma: Option<(u8, u8)>, rgb: u8, alpha: u8, depths: &[u8]) -> PixelFormat {
    PixelFormat {
        name: name.to_string(),
        nb_components: components,
        log2_chroma_w: chroma.map(|c| c.0),
        log2_chroma_h: chroma.map(|c| c.1),
        flags: PixelFormatFlags { rgb, alpha, palette: 0, hwaccel: 0 },
        components: depths.iter().map(|&bit_depth| PixelComponent { bit_depth }).collect(),
    }
}

#[test]
fn tags_insert_in_key_order_and_read_back() {
    let mut tags = Tags::new();
    tags.insert("title".to_string(), "Cover".to_string());
    tags.insert("filename".to_string(), "cover.jpg".to_string());
    tags.insert("mimetype".to_string(), "image/jpeg".to_string());
    let keys: Vec<&str> = tags.entries().iter().map(|(k, _)| k.as_str()).collect();
    assert_eq!(keys, ["filename", "mimetype", "title"]);
    assert_eq!(tags.get("mimetype").map(String::as_str), Some("image/jpeg"));
    assert_eq!(tags.get("MIMETYPE"), None);
    assert!(tags.has_key_ignoring_case("MimeType"));
    assert!(!tags.has_key_ignoring_case("mime"));
    let copy = tags.duplicate();
    assert_eq!(copy.entries(), tags.entries());
}

#[test]
fn ascii_case_is_ignored_only_for_ascii_letters() {
    assert!(eq_ignoring_ascii_case("Attached_Pic", "attached_pic"));
    assert!(!eq_ignoring_ascii_case("Ä", "ä"));
    assert!(!eq_ignoring_ascii_case("cover", "covers"));
}

#[test]
fn pixel_layouts_follow_the_descriptor() {
    let yuv = pixel_format("yuv420p10le", 3, Some((1, 1)), 0, 0, &[10, 10, 10]);
    let samples = yuv.samples().unwrap();
    assert_eq!(samples.component_depths, [10, 10, 10]);
    assert_eq!(samples.chroma, Chroma::Yuv { log2_width: 1, log2_height: 1 });
    assert!(!samples.alpha);

    let p010 = pixel_format("p010le", 3, Some((1, 1)), 0, 0, &[10, 10, 10]);
    assert!(samples.same_as(&p010.samples().unwrap()));

    let rgba = pixel_format("rgba", 4, Some((0, 0)), 1, 1, &[8, 8, 8, 8]);
    let rgba_samples = rgba.samples().unwrap();
    assert_eq!(rgba_samples.chroma, Chroma::Rgb);
    assert!(rgba_samples.alpha);
    assert!(!samples.same_as(&rgba_samples));

    let gray = pixel_format("gray", 1, None, 0, 0, &[8]);
    assert_eq!(gray.samples().unwrap().chroma, Chroma::Gray);

    let mut pal = pixel_format("pal8", 1, Some((0, 0)), 0, 0, &[8]);
    pal.flags.palette = 1;
    assert!(pal.samples().is_none());
    let mut hw = pixel_format("vaapi", 0, None, 0, 0, &[]);
    hw.flags.hwaccel = 1;
    assert!(hw.samples().is_none());
    let two_planes = pixel_format("ya8", 2, None, 0, 0, &[8, 8]);
    assert!(two_planes.samples().is_none());
}

#[test]
fn flags_and_optional_text_are_read_exactly() {
    let disposition = vec![("default".to_string(), 1), ("attached_pic".to_string(), 1), ("default".to_string(), 0)];
    assert_eq!(flag_of(&disposition, "attached_pic"), 1);
    assert_eq!(flag_of(&disposition, "default"), 1);
    assert_eq!(flag_of(&disposition, "forced"), 0);
    assert!(opt_is(&Some("video".to_string()), "video"));
    assert!(!opt_is(&Some("audio".to_string()), "video"));
    assert!(!opt_is(&None, "video"));
}

#[test]
fn storing_a_key_again_replaces_its_value() {
    let mut tags = Tags::new();
    tags.insert("title".to_string(), "First".to_string());
    tags.insert("artist".to_string(), "Someone".to_string());
    tags.insert("title".to_string(), "Second".to_string());
    assert_eq!(tags.entries().len(), 2);
    assert_eq!(tags.get("title").map(String::as_str), Some("Second"));
    assert_eq!(tags.get("artist").map(String::as_str), Some("Someone"));
}
