//! Choosing the pixel format an encoder receives.
use vstd::prelude::*;
use vstd::string::*;
use crate::media::{samples_of, Chroma, MediaInfo, PixelFormat, VideoSamples};
use crate::text::str_eq;

verus! {

/// The views of a list of strings.
pub open spec fn names(v: Seq<String>) -> Seq<Seq<char>> {
    v.map_values(|s: String| s@)
}

/// Whether `f` lists a descriptor named `n` whose sample layout is `l`.
pub open spec fn has_equivalent(f: Seq<PixelFormat>, n: Seq<char>, l: (Seq<u8>, Chroma, bool)) -> bool {
    exists|i: int| 0 <= i < f.len() && (#[trigger] f[i]).name@ == n && samples_of(f[i]) == Some(l)
}

/// The first of `supported` whose descriptor in `f` has layout `l`.
pub open spec fn first_equivalent(
    supported: Seq<Seq<char>>,
    f: Seq<PixelFormat>,
    l: (Seq<u8>, Chroma, bool),
) -> Option<Seq<char>>
    decreases supported.len(),
{
    if supported.len() == 0 {
        None
    } else if has_equivalent(f, supported[0], l) {
        Some(supported[0])
    } else {
        first_equivalent(supported.drop_first(), f, l)
    }
}

/// The format an encoder that accepts `supported` receives for frames in `input`:
/// the input's own format when accepted, else the first accepted format with the
/// same sample layout, else the input's format (FFmpeg then decides).
pub open spec fn encoder_target(
    f: Seq<PixelFormat>,
    input: PixelFormat,
    supported: Seq<Seq<char>>,
) -> Seq<char> {
    if supported.contains(input.name@) {
        input.name@
    } else {
        match samples_of(input) {
            None => input.name@,
            Some(l) => match first_equivalent(supported, f, l) {
                Some(n) => n,
                None => input.name@,
            },
        }
    }
}

/// The hardware-surface format for a YUV layout with the given subsampling and depths.
pub open spec fn surface_format(w: u8, h: u8, d: Seq<u8>) -> Option<Seq<char>> {
    if d == seq![8u8, 8u8, 8u8] {
        if w == 1 && h == 1 {
            Some("nv12"@)
        } else if w == 1 && h == 0 {
            Some("yuyv422"@)
        } else if w == 0 && h == 0 {
            Some("vuyx"@)
        } else {
            None
        }
    } else if d == seq![10u8, 10u8, 10u8] {
        if w == 1 && h == 1 {
            Some("p010le"@)
        } else if w == 1 && h == 0 {
            Some("y210le"@)
        } else if w == 0 && h == 0 {
            Some("xv30le"@)
        } else {
            None
        }
    } else if d == seq![12u8, 12u8, 12u8] {
        if w == 1 && h == 1 {
            Some("p012le"@)
        } else if w == 1 && h == 0 {
            Some("y212le"@)
        } else if w == 0 && h == 0 {
            Some("xv36le"@)
        } else {
            None
        }
    } else {
        None
    }
}

/// The format VAAPI and QSV surfaces use for frames in `input`, or the input's
/// own format when no surface format matches its layout.
pub open spec fn surface_target(input: PixelFormat) -> Seq<char> {
    match samples_of(input) {
        Some((d, Chroma::Yuv { log2_width, log2_height }, false)) => match surface_format(
            log2_width,
            log2_height,
            d,
        ) {
            Some(n) => n,
            None => input.name@,
        },
        _ => input.name@,
    }
}

/// Whether `s` holds the three depths `d, d, d`.
pub fn three_of(s: &Vec<u8>, d: u8) -> (r: bool)
    ensures
        r == (s@ == seq![d, d, d]),
{
    if s.len() == 3 && s[0] == d && s[1] == d && s[2] == d {
        assert(s@ =~= seq![d, d, d]);
        true
    } else {
        false
    }
}

fn surface_name(w: u8, h: u8, d: &Vec<u8>) -> (r: Option<&'static str>)
    ensures
        r matches Some(n) ==> surface_format(w, h, d@) == Some(n@),
        r is None ==> surface_format(w, h, d@) is None,
{
    let (a, b, c) = if three_of(d, 8) {
        ("nv12", "yuyv422", "vuyx")
    } else if three_of(d, 10) {
        ("p010le", "y210le", "xv30le")
    } else if three_of(d, 12) {
        ("p012le", "y212le", "xv36le")
    } else {
        return None;
    };
    assert(seq![8u8, 8u8, 8u8] != seq![10u8, 10u8, 10u8]) by {
        assert(seq![8u8, 8u8, 8u8][0] != seq![10u8, 10u8, 10u8][0]);
    }
    assert(seq![8u8, 8u8, 8u8] != seq![12u8, 12u8, 12u8]) by {
        assert(seq![8u8, 8u8, 8u8][0] != seq![12u8, 12u8, 12u8][0]);
    }
    assert(seq![10u8, 10u8, 10u8] != seq![12u8, 12u8, 12u8]) by {
        assert(seq![10u8, 10u8, 10u8][0] != seq![12u8, 12u8, 12u8][0]);
    }
    if w == 1 && h == 1 {
        Some(a)
    } else if w == 1 && h == 0 {
        Some(b)
    } else if w == 0 && h == 0 {
        Some(c)
    } else {
        None
    }
}

/// The format VAAPI and QSV surfaces use for frames in `input`.
pub fn vaapi_qsv_format(input: &PixelFormat) -> (r: String)
    ensures
        r@ == surface_target(*input),
{
    match input.samples() {
        Some(VideoSamples { component_depths, chroma: Chroma::Yuv { log2_width, log2_height }, alpha: false }) => {
            match surface_name(log2_width, log2_height, &component_depths) {
                Some(n) => String::from_str(n),
                None => input.name.clone(),
            }
        },
        _ => input.name.clone(),
    }
}

fn contains_name(v: &[String], n: &str) -> (r: bool)
    ensures
        r == names(v@).contains(n@),
{
    let mut i: usize = 0;
    while i < v.len()
        invariant
            i <= v@.len(),
            forall|j: int| 0 <= j < i ==> v@[j]@ != n@,
        decreases v@.len() - i,
    {
        if str_eq(v[i].as_str(), n) {
            assert(names(v@)[i as int] == n@);
            return true;
        }
        i += 1;
    }
    assert forall|j: int| 0 <= j < names(v@).len() implies names(v@)[j] != n@ by {
        assert(names(v@)[j] == v@[j]@);
    }
    false
}

fn equivalent_listed(f: &Vec<PixelFormat>, n: &str, l: &VideoSamples) -> (r: bool)
    ensures
        r == has_equivalent(f@, n@, l.layout()),
{
    let mut i: usize = 0;
    while i < f.len()
        invariant
            i <= f@.len(),
            forall|j: int| 0 <= j < i ==> !((#[trigger] f@[j]).name@ == n@ && samples_of(f@[j]) == Some(l.layout())),
        decreases f@.len() - i,
    {
        if str_eq(f[i].name.as_str(), n) {
            match f[i].samples() {
                Some(s) => {
                    if s.same_as(l) {
                        assert(f@[i as int].name@ == n@ && samples_of(f@[i as int]) == Some(l.layout()));
                        return true;
                    }
                },
                None => {},
            }
        }
        i += 1;
    }
    false
}

/// The format an encoder that accepts `supported` receives for frames in `input`.
pub fn encoder_format(media: &MediaInfo, input: &PixelFormat, supported: &[String]) -> (r: String)
    ensures
        r@ == encoder_target(media.pixel_formats@, *input, names(supported@)),
{
    if contains_name(supported, input.name.as_str()) {
        return input.name.clone();
    }
    let samples = match input.samples() {
        Some(s) => s,
        None => return input.name.clone(),
    };
    let ghost l = samples.layout();
    let ghost all = names(supported@);
    let mut i: usize = 0;
    assert(all.skip(0) =~= all);
    while i < supported.len()
        invariant
            i <= supported@.len(),
            all == names(supported@),
            l == samples.layout(),
            samples_of(*input) == Some(l),
            !all.contains(input.name@),
            first_equivalent(all, media.pixel_formats@, l) == first_equivalent(
                all.skip(i as int),
                media.pixel_formats@,
                l,
            ),
        decreases supported@.len() - i,
    {
        proof {
            assert(all.skip(i as int)[0] == all[i as int]);
            assert(all[i as int] == supported@[i as int]@);
            assert(all.skip(i as int).drop_first() =~= all.skip(i + 1));
        }
        if equivalent_listed(&media.pixel_formats, supported[i].as_str(), &samples) {
            assert(first_equivalent(all.skip(i as int), media.pixel_formats@, l) == Some(all[i as int]));
            assert(samples_of(*input) == Some(l));
            return supported[i].clone();
        }
        i += 1;
    }
    input.name.clone()
}

} // verus!
