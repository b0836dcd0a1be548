use yog::media::{PixelComponent, PixelFormat, PixelFormatFlags};
use yog::pixel_format::vaapi_qsv_format;

fn format(name: &str, w: u8, h: u8, rgb: u8, alpha: u8, depths: &[u8]) -> PixelFormat {
    PixelFormat {
        name: name.to_string(),
        nb_components: depths.len() as u8,
        log2_chroma_w: Some(w),
        log2_chroma_h: Some(h),
        flags: PixelFormatFlags { rgb, alpha, palette: 0, hwaccel: 0 },
        components: depths.iter().map(|&bit_depth| PixelComponent { bit_depth }).collect(),
    }
}

#[test]
fn surface_formats_follow_subsampling_and_depth() {
    let cases = [
        (1, 1, 8, "nv12"),
        (1, 1, 10, "p010le"),
        (1, 1, 12, "p012le"),
        (1, 0, 8, "yuyv422"),
        (1, 0, 10, "y210le"),
        (1, 0, 12, "y212le"),
        (0, 0, 8, "vuyx"),
        (0, 0, 10, "xv30le"),
        (0, 0, 12, "xv36le"),
    ];
    for (w, h, d, expected) in cases {
        assert_eq!(vaapi_qsv_format(&format("planar", w, h, 0, 0, &[d, d, d])), expected);
        assert_eq!(vaapi_qsv_format(&format("semi_planar", w, h, 0, 0, &[d, d, d])), expected);
    }
}

#[test]
fn formats_without_a_surface_keep_their_name() {
    assert_eq!(vaapi_qsv_format(&format("yuva420p", 1, 1, 0, 1, &[8, 8, 8, 8])), "yuva420p");
    assert_eq!(vaapi_qsv_format(&format("gbrp", 0, 0, 1, 0, &[8, 8, 8])), "gbrp");
    assert_eq!(vaapi_qsv_format(&format("yuv411p", 2, 0, 0, 0, &[8, 8, 8])), "yuv411p");
    assert_eq!(vaapi_qsv_format(&format("yuv420p9", 1, 1, 0, 0, &[9, 9, 9])), "yuv420p9");
}
