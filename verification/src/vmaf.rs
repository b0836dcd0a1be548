//! The FFmpeg invocation that scores a transcode against its source with libvmaf.
use vstd::prelude::*;
use vstd::string::*;
use crate::args::{add_arg, string_views, Arg};
use crate::media::MediaInfo;
use crate::prediction::{first_regular_stream, first_video_stream};
use crate::text::{decimal, decimal_string};

verus! {

/// Why a VMAF comparison cannot be set up.
#[derive(Debug, Clone, Copy, PartialEq, Eq, Structural)]
pub enum VmafError {
    /// The source has no timed video stream.
    NoReferenceVideo,
    /// The source's video stream has no positive width and height.
    MissingReferenceDimensions { stream_index: usize },
    /// The transcode has no timed video stream.
    NoDistortedVideo,
}

/// The source video stream a comparison uses: its index, width and height.
pub open spec fn reference_of(media: MediaInfo) -> Result<(usize, u32, u32), VmafError> {
    match first_regular_stream(media.streams@) {
        None => Err(VmafError::NoReferenceVideo),
        Some(s) => match (s.width, s.height) {
            (Some(w), Some(h)) => if w > 0 && h > 0 {
                Ok((s.index, w, h))
            } else {
                Err(VmafError::MissingReferenceDimensions { stream_index: s.index })
            },
            _ => Err(VmafError::MissingReferenceDimensions { stream_index: s.index }),
        },
    }
}

/// The source video stream a comparison uses.
pub fn reference_stream(media: &MediaInfo) -> (r: Result<(usize, u32, u32), VmafError>)
    ensures
        r == reference_of(*media),
{
    let s = match first_video_stream(&media.streams) {
        Some(s) => s,
        None => return Err(VmafError::NoReferenceVideo),
    };
    match (s.width, s.height) {
        (Some(w), Some(h)) => if w > 0 && h > 0 {
            Ok((s.index, w, h))
        } else {
            Err(VmafError::MissingReferenceDimensions { stream_index: s.index })
        },
        _ => Err(VmafError::MissingReferenceDimensions { stream_index: s.index }),
    }
}

/// The transcode's video stream a comparison scores.
pub fn distorted_stream(media: &MediaInfo) -> (r: Result<usize, VmafError>)
    ensures
        match first_regular_stream(media.streams@) {
            Some(s) => r == Ok::<usize, VmafError>(s.index),
            None => r == Err::<usize, VmafError>(VmafError::NoDistortedVideo),
        },
{
    match first_video_stream(&media.streams) {
        Some(s) => Ok(s.index),
        None => Err(VmafError::NoDistortedVideo),
    }
}

/// The filter graph that crops the transcode's stream `distorted` to the source's
/// `width`×`height`, aligns both timelines, and scores them with libvmaf, logging
/// JSON to `log_path` (already quoted for a filter), with PSNR and SSIM when
/// `auxiliary`, and every `n`-th frame only when `n_subsample` is `Some(n)`.
pub open spec fn vmaf_filter_text(
    distorted: usize,
    width: u32,
    height: u32,
    reference: usize,
    log_path: Seq<char>,
    auxiliary: bool,
    n_subsample: Option<u32>,
) -> Seq<char> {
    "[0:"@ + decimal(distorted as nat) + "]crop=w="@ + decimal(width as nat) + ":h="@ + decimal(height as nat)
        + ":x=0:y=0:exact=1,setpts=PTS-STARTPTS[dist];[1:"@ + decimal(reference as nat)
        + "]setpts=PTS-STARTPTS[ref];[dist][ref]libvmaf="@ + (if auxiliary {
        "feature=name=psnr|name=float_ssim:"@
    } else {
        Seq::<char>::empty()
    }) + "log_fmt=json:log_path="@ + log_path + ":shortest=1"@ + (match n_subsample {
        Some(n) => ":n_subsample="@ + decimal(n as nat),
        None => Seq::<char>::empty(),
    }) + "[out]"@
}

/// The libvmaf filter graph.
pub fn vmaf_filter(
    distorted: usize,
    width: u32,
    height: u32,
    reference: usize,
    log_path: &str,
    auxiliary: bool,
    n_subsample: Option<u32>,
) -> (r: String)
    ensures
        r@ == vmaf_filter_text(distorted, width, height, reference, log_path@, auxiliary, n_subsample),
{
    proof {
        reveal_strlit("");
    }
    let features = if auxiliary {
        String::from_str("feature=name=psnr|name=float_ssim:")
    } else {
        String::new()
    };
    let subsample = match n_subsample {
        Some(n) => String::from_str(":n_subsample=").concat(decimal_string(n as u64).as_str()),
        None => String::new(),
    };
    let r = String::from_str("[0:").concat(decimal_string(distorted as u64).as_str()).concat("]crop=w=").concat(
        decimal_string(width as u64).as_str(),
    ).concat(":h=").concat(decimal_string(height as u64).as_str()).concat(
        ":x=0:y=0:exact=1,setpts=PTS-STARTPTS[dist];[1:",
    ).concat(decimal_string(reference as u64).as_str()).concat("]setpts=PTS-STARTPTS[ref];[dist][ref]libvmaf=").concat(
        features.as_str(),
    ).concat("log_fmt=json:log_path=").concat(log_path).concat(":shortest=1").concat(subsample.as_str()).concat(
        "[out]",
    );
    assert(r@ =~= vmaf_filter_text(distorted, width, height, reference, log_path@, auxiliary, n_subsample));
    r
}

/// The command line that scores `distorted` against `reference`, seeking the
/// reference to `reference_start` first when given.
pub open spec fn vmaf_args(
    distorted: Seq<char>,
    reference: Seq<char>,
    reference_start: Option<Seq<char>>,
    filter: Seq<char>,
) -> Seq<Seq<char>> {
    seq!["-hide_banner"@, "-nostdin"@, "-v"@, "error"@, "-i"@, distorted] + (match reference_start {
        Some(t) => seq!["-ss"@, t],
        None => Seq::<Seq<char>>::empty(),
    }) + seq!["-i"@, reference, "-filter_complex"@, filter, "-map"@, "[out]"@, "-f"@, "null"@, "-"@]
}

/// The command line of a VMAF comparison.
pub fn vmaf_command(distorted: &str, reference: &str, reference_start: Option<&str>, filter: String) -> (r: Vec<
    String,
>)
    ensures
        string_views(r@) == vmaf_args(
            distorted@,
            reference@,
            match reference_start {
                Some(t) => Some(t@),
                None => None,
            },
            filter@,
        ),
{
    let mut r: Vec<String> = Vec::new();
    assert(string_views(r@) =~= seq![]);
    add_arg(&mut r, Arg::HideBanner);
    add_arg(&mut r, Arg::NoStdin);
    add_arg(&mut r, Arg::LogLevel(String::from_str("error")));
    add_arg(&mut r, Arg::Input(String::from_str(distorted)));
    match reference_start {
        Some(t) => add_arg(&mut r, Arg::Seek(String::from_str(t))),
        None => {},
    }
    add_arg(&mut r, Arg::Input(String::from_str(reference)));
    add_arg(&mut r, Arg::FilterComplex(filter));
    add_arg(&mut r, Arg::MapLabel(String::from_str("[out]")));
    add_arg(&mut r, Arg::Format(String::from_str("null")));
    add_arg(&mut r, Arg::Stdout);
    assert(string_views(r@) =~= vmaf_args(
        distorted@,
        reference@,
        match reference_start {
            Some(t) => Some(t@),
            None => None,
        },
        filter@,
    ));
    r
}

} // verus!
