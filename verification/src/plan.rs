//! Turning a transcode request and a probe of its input into FFmpeg arguments.
use vstd::prelude::*;
use vstd::string::*;
use crate::args::{add_arg, indexed, string_views, Arg};
use crate::decoding::{direct_target, frame_input_args, frame_output_args, DecodingBackend};
use crate::encoding::{
    encoding_name, encoding_options, NvencMultipass, NvencPreset, Preset, QsvPreset, RateControl,
    VideoCodec, VideoEncoding,
};
use crate::media::{
    has_key_ignoring_case, insert_position, opt_is, opt_view, pair_views, regular_video,
    stream_descriptor, MediaInfo, MediaStream, Tags,
};
use crate::path::{extension_of, lowercase, path_extension, to_lowercase};
use crate::pixel_format::{encoder_format, encoder_target, names, surface_target, vaapi_qsv_format};
use crate::text::{
    chars_eq_str, chars_of, decimal, decimal_string, is_char, split_by, split_chars, trim,
    trim_chars, views,
};

verus! {

/// An output container format.
#[derive(Debug, Clone, Copy, PartialEq, Eq, Structural)]
pub enum Container {
    Matroska,
    Mp4,
    Mov,
    M4a,
    ThreeGp,
    ThreeG2,
    F4v,
    Ismv,
    Psp,
    Webm,
    MpegTs,
    M2ts,
    Avi,
    Flv,
    Asf,
    Wmv,
    MpegPs,
    Vob,
    Ogg,
    Ogv,
}

/// The file extension a container is written with.
pub open spec fn container_extension(c: Container) -> Seq<char> {
    match c {
        Container::Matroska => "mkv"@,
        Container::Mp4 => "mp4"@,
        Container::Mov => "mov"@,
        Container::M4a => "m4a"@,
        Container::ThreeGp => "3gp"@,
        Container::ThreeG2 => "3g2"@,
        Container::F4v => "f4v"@,
        Container::Ismv => "ismv"@,
        Container::Psp => "psp"@,
        Container::Webm => "webm"@,
        Container::MpegTs => "ts"@,
        Container::M2ts => "m2ts"@,
        Container::Avi => "avi"@,
        Container::Flv => "flv"@,
        Container::Asf => "asf"@,
        Container::Wmv => "wmv"@,
        Container::MpegPs => "mpg"@,
        Container::Vob => "vob"@,
        Container::Ogg => "ogg"@,
        Container::Ogv => "ogv"@,
    }
}

/// The FFmpeg muxer that writes a container.
pub open spec fn container_muxer(c: Container) -> Seq<char> {
    match c {
        Container::Matroska => "matroska"@,
        Container::Mp4 => "mp4"@,
        Container::Mov => "mov"@,
        Container::M4a => "ipod"@,
        Container::ThreeGp => "3gp"@,
        Container::ThreeG2 => "3g2"@,
        Container::F4v => "f4v"@,
        Container::Ismv => "ismv"@,
        Container::Psp => "psp"@,
        Container::Webm => "webm"@,
        Container::MpegTs | Container::M2ts => "mpegts"@,
        Container::Avi => "avi"@,
        Container::Flv => "flv"@,
        Container::Asf | Container::Wmv => "asf"@,
        Container::MpegPs => "mpeg"@,
        Container::Vob => "vob"@,
        Container::Ogg => "ogg"@,
        Container::Ogv => "ogv"@,
    }
}

/// Whether the comma-separated demuxer list `f` names `x`.
pub open spec fn lists_format(f: Seq<char>, x: Seq<char>) -> bool {
    exists|i: int|
        0 <= i < split_by(f, is_char(',')).len() && trim(#[trigger] split_by(f, is_char(','))[i])
            == x
}

/// The container an input is written back in: chosen by the demuxer ffprobe
/// reported, and within a demuxer's family by the input's lower-cased extension.
pub open spec fn input_container(path: Seq<char>, format: Seq<char>) -> Option<Container> {
    let e = match path_extension(path) {
        Some(x) => Some(lowercase(x)),
        None => None,
    };
    if lists_format(format, "mpegts"@) {
        if e == Some("ts"@) {
            Some(Container::MpegTs)
        } else if (e == Some("m2t"@) || e == Some("m2ts"@) || e == Some("mts"@)) {
            Some(Container::M2ts)
        } else {
            Some(Container::MpegTs)
        }
    } else if lists_format(format, "matroska"@) || lists_format(format, "webm"@) {
        if (e == Some("mkv"@) || e == Some("mk3d"@) || e == Some("mka"@) || e == Some("mks"@)) {
            Some(Container::Matroska)
        } else if e == Some("webm"@) {
            Some(Container::Webm)
        } else {
            Some(Container::Matroska)
        }
    } else if lists_format(format, "mov"@) || lists_format(format, "mp4"@) || lists_format(
        format,
        "m4a"@,
    ) || lists_format(format, "3gp"@) || lists_format(format, "3g2"@) || lists_format(
        format,
        "mj2"@,
    ) {
        if e == Some("mp4"@) {
            Some(Container::Mp4)
        } else if e == Some("mov"@) {
            Some(Container::Mov)
        } else if (e == Some("m4a"@) || e == Some("m4b"@) || e == Some("m4v"@)) {
            Some(Container::M4a)
        } else if e == Some("3gp"@) {
            Some(Container::ThreeGp)
        } else if e == Some("3g2"@) {
            Some(Container::ThreeG2)
        } else if e == Some("f4v"@) {
            Some(Container::F4v)
        } else if (e == Some("ismv"@) || e == Some("isma"@)) {
            Some(Container::Ismv)
        } else if e == Some("psp"@) {
            Some(Container::Psp)
        } else {
            Some(Container::Mp4)
        }
    } else if lists_format(format, "avi"@) {
        Some(Container::Avi)
    } else if lists_format(format, "flv"@) {
        Some(Container::Flv)
    } else if lists_format(format, "asf"@) {
        if e == Some("wmv"@) {
            Some(Container::Wmv)
        } else {
            Some(Container::Asf)
        }
    } else if lists_format(format, "mpeg"@) {
        if e == Some("vob"@) {
            Some(Container::Vob)
        } else {
            Some(Container::MpegPs)
        }
    } else if lists_format(format, "ogg"@) {
        if e == Some("ogv"@) {
            Some(Container::Ogv)
        } else {
            Some(Container::Ogg)
        }
    } else {
        None
    }
}

/// The trimmed pieces of a comma-separated list.
fn format_list(format: &str) -> (r: Vec<Vec<char>>)
    ensures
        views(r@) == split_by(format@, is_char(',')).map_values(|p: Seq<char>| trim(p)),
{
    let chars = chars_of(format);
    let pieces = split_chars(chars.as_slice(), ',');
    let mut out: Vec<Vec<char>> = Vec::new();
    let mut i: usize = 0;
    while i < pieces.len()
        invariant
            chars@ == format@,
            views(pieces@) == split_by(format@, is_char(',')),
            i <= pieces@.len(),
            views(out@) =~= views(pieces@).take(i as int).map_values(|p: Seq<char>| trim(p)),
        decreases pieces@.len() - i,
    {
        let t = trim_chars(pieces[i].as_slice());
        let ghost before = views(out@);
        out.push(t);
        assert(views(out@) =~= before.push(t@));
        assert(views(pieces@).take(i + 1) =~= views(pieces@).take(i as int).push(pieces@[i as int]@));
        i += 1;
    }
    assert(views(pieces@).take(pieces@.len() as int) =~= views(pieces@));
    out
}

/// Whether the trimmed list `list` holds `x`.
fn listed(list: &Vec<Vec<char>>, x: &str) -> (r: bool)
    ensures
        r == views(list@).contains(x@),
{
    let mut i: usize = 0;
    while i < list.len()
        invariant
            i <= list@.len(),
            forall|j: int| 0 <= j < i ==> views(list@)[j] != x@,
        decreases list@.len() - i,
    {
        if chars_eq_str(list[i].as_slice(), x) {
            assert(views(list@)[i as int] == x@);
            return true;
        }
        i += 1;
    }
    false
}

proof fn lemma_listed(format: Seq<char>, x: Seq<char>)
    ensures
        split_by(format, is_char(',')).map_values(|p: Seq<char>| trim(p)).contains(x)
            == lists_format(format, x),
{
    let s = split_by(format, is_char(','));
    let t = s.map_values(|p: Seq<char>| trim(p));
    if t.contains(x) {
        let i = choose|i: int| 0 <= i < t.len() && t[i] == x;
        assert(trim(s[i]) == x);
    }
    if lists_format(format, x) {
        let i = choose|i: int| 0 <= i < s.len() && trim(#[trigger] s[i]) == x;
        assert(t[i] == x);
    }
}

fn ext_is(e: &Option<String>, x: &str) -> (r: bool)
    ensures
        r == (opt_view(*e) == Some(x@)),
{
    opt_is(e, x)
}

impl Container {
    /// The file extension this container is written with.
    pub fn extension(self) -> (s: &'static str)
        ensures
            s@ == container_extension(self),
    {
        match self {
            Container::Matroska => "mkv",
            Container::Mp4 => "mp4",
            Container::Mov => "mov",
            Container::M4a => "m4a",
            Container::ThreeGp => "3gp",
            Container::ThreeG2 => "3g2",
            Container::F4v => "f4v",
            Container::Ismv => "ismv",
            Container::Psp => "psp",
            Container::Webm => "webm",
            Container::MpegTs => "ts",
            Container::M2ts => "m2ts",
            Container::Avi => "avi",
            Container::Flv => "flv",
            Container::Asf => "asf",
            Container::Wmv => "wmv",
            Container::MpegPs => "mpg",
            Container::Vob => "vob",
            Container::Ogg => "ogg",
            Container::Ogv => "ogv",
        }
    }

    /// The container named by its extension, or `mpeg` for MPEG-PS.
    pub fn from_name(name: &str) -> (r: Result<Container, String>)
        ensures
            r matches Ok(c) ==> container_extension(c) == name@ || (name@ == "mpeg"@ && c == Container::MpegPs),
            r is Err <==> (forall|c: Container| container_extension(c) != name@) && name@ != "mpeg"@,
            r matches Err(m) ==> m@ == "unknown container "@ + name@,
    {
        let r = if crate::text::str_eq(name, "mkv") {
            Ok(Container::Matroska)
        } else if crate::text::str_eq(name, "mp4") {
            Ok(Container::Mp4)
        } else if crate::text::str_eq(name, "mov") {
            Ok(Container::Mov)
        } else if crate::text::str_eq(name, "m4a") {
            Ok(Container::M4a)
        } else if crate::text::str_eq(name, "3gp") {
            Ok(Container::ThreeGp)
        } else if crate::text::str_eq(name, "3g2") {
            Ok(Container::ThreeG2)
        } else if crate::text::str_eq(name, "f4v") {
            Ok(Container::F4v)
        } else if crate::text::str_eq(name, "ismv") {
            Ok(Container::Ismv)
        } else if crate::text::str_eq(name, "psp") {
            Ok(Container::Psp)
        } else if crate::text::str_eq(name, "webm") {
            Ok(Container::Webm)
        } else if crate::text::str_eq(name, "ts") {
            Ok(Container::MpegTs)
        } else if crate::text::str_eq(name, "m2ts") {
            Ok(Container::M2ts)
        } else if crate::text::str_eq(name, "avi") {
            Ok(Container::Avi)
        } else if crate::text::str_eq(name, "flv") {
            Ok(Container::Flv)
        } else if crate::text::str_eq(name, "asf") {
            Ok(Container::Asf)
        } else if crate::text::str_eq(name, "wmv") {
            Ok(Container::Wmv)
        } else if crate::text::str_eq(name, "mpg") {
            Ok(Container::MpegPs)
        } else if crate::text::str_eq(name, "vob") {
            Ok(Container::Vob)
        } else if crate::text::str_eq(name, "ogg") {
            Ok(Container::Ogg)
        } else if crate::text::str_eq(name, "ogv") {
            Ok(Container::Ogv)
        } else if crate::text::str_eq(name, "mpeg") {
            Ok(Container::MpegPs)
        } else {
            Err(String::from_str("unknown container ").concat(name))
        };
        proof {
            match r {
                Ok(c) => {
                    if name@ != "mpeg"@ {
                        assert(container_extension(c) == name@);
                    }
                },
                Err(_) => {
                    assert forall|c: Container| #[trigger] container_extension(c) != name@ by {}
                },
            }
        }
        r
    }

    /// The FFmpeg muxer that writes this container.
    pub fn muxer(self) -> (s: &'static str)
        ensures
            s@ == container_muxer(self),
    {
        match self {
            Container::Matroska => "matroska",
            Container::Mp4 => "mp4",
            Container::Mov => "mov",
            Container::M4a => "ipod",
            Container::ThreeGp => "3gp",
            Container::ThreeG2 => "3g2",
            Container::F4v => "f4v",
            Container::Ismv => "ismv",
            Container::Psp => "psp",
            Container::Webm => "webm",
            Container::MpegTs | Container::M2ts => "mpegts",
            Container::Avi => "avi",
            Container::Flv => "flv",
            Container::Asf | Container::Wmv => "asf",
            Container::MpegPs => "mpeg",
            Container::Vob => "vob",
            Container::Ogg => "ogg",
            Container::Ogv => "ogv",
        }
    }

    /// The container an input at `path` that ffprobe read with the demuxers
    /// `format_name` is written back in; `None` without a demuxer or for one
    /// that cannot be written.
    pub fn from_input(path: &str, format_name: Option<&str>) -> (r: Option<Container>)
        ensures
            format_name is None ==> r is None,
            format_name matches Some(f) ==> r == input_container(path@, f@),
    {
        let format = match format_name {
            Some(f) => f,
            None => return None,
        };
        let list = format_list(format);
        let ghost fv = format@;
        proof {
            lemma_listed(fv, "mpegts"@);
            lemma_listed(fv, "matroska"@);
            lemma_listed(fv, "webm"@);
            lemma_listed(fv, "mov"@);
            lemma_listed(fv, "mp4"@);
            lemma_listed(fv, "m4a"@);
            lemma_listed(fv, "3gp"@);
            lemma_listed(fv, "3g2"@);
            lemma_listed(fv, "mj2"@);
            lemma_listed(fv, "avi"@);
            lemma_listed(fv, "flv"@);
            lemma_listed(fv, "asf"@);
            lemma_listed(fv, "mpeg"@);
            lemma_listed(fv, "ogg"@);
        }
        let e = match extension_of(path) {
            Some(x) => Some(to_lowercase(x.as_str())),
            None => None,
        };
        let ghost ev = opt_view(e);
        assert(ev == match path_extension(path@) {
            Some(x) => Some(lowercase(x)),
            None => None,
        });
        if listed(&list, "mpegts") {
            if ext_is(&e, "ts") {
                Some(Container::MpegTs)
            } else if ext_is(&e, "m2t") || ext_is(&e, "m2ts") || ext_is(&e, "mts") {
                Some(Container::M2ts)
            } else {
                Some(Container::MpegTs)
            }
        } else if listed(&list, "matroska") || listed(&list, "webm") {
            if ext_is(&e, "mkv") || ext_is(&e, "mk3d") || ext_is(&e, "mka") || ext_is(&e, "mks") {
                Some(Container::Matroska)
            } else if ext_is(&e, "webm") {
                Some(Container::Webm)
            } else {
                Some(Container::Matroska)
            }
        } else if listed(&list, "mov") || listed(&list, "mp4") || listed(&list, "m4a") || listed(
            &list,
            "3gp",
        ) || listed(&list, "3g2") || listed(&list, "mj2") {
            if ext_is(&e, "mp4") {
                Some(Container::Mp4)
            } else if ext_is(&e, "mov") {
                Some(Container::Mov)
            } else if ext_is(&e, "m4a") || ext_is(&e, "m4b") || ext_is(&e, "m4v") {
                Some(Container::M4a)
            } else if ext_is(&e, "3gp") {
                Some(Container::ThreeGp)
            } else if ext_is(&e, "3g2") {
                Some(Container::ThreeG2)
            } else if ext_is(&e, "f4v") {
                Some(Container::F4v)
            } else if ext_is(&e, "ismv") || ext_is(&e, "isma") {
                Some(Container::Ismv)
            } else if ext_is(&e, "psp") {
                Some(Container::Psp)
            } else {
                Some(Container::Mp4)
            }
        } else if listed(&list, "avi") {
            Some(Container::Avi)
        } else if listed(&list, "flv") {
            Some(Container::Flv)
        } else if listed(&list, "asf") {
            if ext_is(&e, "wmv") {
                Some(Container::Wmv)
            } else {
                Some(Container::Asf)
            }
        } else if listed(&list, "mpeg") {
            if ext_is(&e, "vob") {
                Some(Container::Vob)
            } else {
                Some(Container::MpegPs)
            }
        } else if listed(&list, "ogg") {
            if ext_is(&e, "ogv") {
                Some(Container::Ogv)
            } else {
                Some(Container::Ogg)
            }
        } else {
            None
        }
    }
}

/// What happens to video streams.
#[derive(Debug, Clone)]
pub enum VideoAction {
    Copy,
    Encode(VideoEncoding),
}

impl VideoAction {
    /// Encodes with x264.
    pub fn encode_x264(rate: Option<RateControl>, preset: Option<Preset>) -> (a: VideoAction)
        ensures
            a == VideoAction::Encode(VideoEncoding::X264 { rate, preset }),
    {
        VideoAction::Encode(VideoEncoding::X264 { rate, preset })
    }

    /// Encodes with x265.
    pub fn encode_x265(rate: Option<RateControl>, preset: Option<Preset>) -> (a: VideoAction)
        ensures
            a == VideoAction::Encode(VideoEncoding::X265 { rate, preset }),
    {
        VideoAction::Encode(VideoEncoding::X265 { rate, preset })
    }

    /// Encodes with SVT-AV1.
    pub fn encode_svt_av1(rate: Option<RateControl>, preset: Option<u8>) -> (a: VideoAction)
        ensures
            a == VideoAction::Encode(VideoEncoding::SvtAv1 { rate, preset }),
    {
        VideoAction::Encode(VideoEncoding::SvtAv1 { rate, preset })
    }

    /// Encodes with libaom.
    pub fn encode_aom_av1(rate: Option<RateControl>, cpu_used: Option<u8>) -> (a: VideoAction)
        ensures
            a == VideoAction::Encode(VideoEncoding::AomAv1 { rate, cpu_used }),
    {
        VideoAction::Encode(VideoEncoding::AomAv1 { rate, cpu_used })
    }

    /// Encodes with rav1e.
    pub fn encode_rav1e(rate: Option<RateControl>, speed: Option<u8>) -> (a: VideoAction)
        ensures
            a == VideoAction::Encode(VideoEncoding::Rav1e { rate, speed }),
    {
        VideoAction::Encode(VideoEncoding::Rav1e { rate, speed })
    }

    /// Encodes with NVENC.
    pub fn encode_nvenc(
        codec: VideoCodec,
        rate: Option<RateControl>,
        preset: Option<NvencPreset>,
        multipass: Option<NvencMultipass>,
    ) -> (a: VideoAction)
        ensures
            a == VideoAction::Encode(VideoEncoding::Nvenc { codec, rate, preset, multipass }),
    {
        VideoAction::Encode(VideoEncoding::Nvenc { codec, rate, preset, multipass })
    }

    /// Encodes with Quick Sync.
    pub fn encode_qsv(codec: VideoCodec, rate: Option<RateControl>, preset: Option<QsvPreset>) -> (a:
        VideoAction)
        ensures
            a == VideoAction::Encode(VideoEncoding::Qsv { codec, rate, preset }),
    {
        VideoAction::Encode(VideoEncoding::Qsv { codec, rate, preset })
    }

    /// Encodes with VAAPI on `device`.
    pub fn encode_vaapi(codec: VideoCodec, device: String, rate: Option<RateControl>) -> (a:
        VideoAction)
        ensures
            a == VideoAction::Encode(VideoEncoding::Vaapi { codec, rate, device }),
    {
        VideoAction::Encode(VideoEncoding::Vaapi { codec, rate, device })
    }
}

/// Why a request cannot be planned for an input.
#[derive(Debug)]
pub enum PlanError {
    /// No container was given and the input's demuxer has no matching muxer.
    UnsupportedContainer { format: Option<String> },
    /// ffprobe listed no descriptor for the pixel format of an encoded stream.
    MissingPixelFormat { stream_index: usize, format: Option<String> },
}

/// The message a planning error is reported with.
pub open spec fn plan_error_text(e: PlanError) -> Seq<char> {
    match e {
        PlanError::UnsupportedContainer { format } => "cannot use input format "@ + crate::warning::debug_text(
            opt_view(format),
        ) + " as an output container; specify a container"@,
        PlanError::MissingPixelFormat { stream_index, format } => "stream "@ + crate::text::decimal(
            stream_index as nat,
        ) + ": ffprobe has no descriptor for pixel format "@ + crate::warning::debug_text(opt_view(format)),
    }
}

impl PlanError {
    /// The message this error is reported with.
    pub fn message(&self) -> (r: String)
        ensures
            r@ == plan_error_text(*self),
    {
        match self {
            PlanError::UnsupportedContainer { format } => String::from_str("cannot use input format ").concat(
                crate::warning::debug_text_of(format).as_str(),
            ).concat(" as an output container; specify a container"),
            PlanError::MissingPixelFormat { stream_index, format } => String::from_str("stream ").concat(
                crate::text::decimal_string(*stream_index as u64).as_str(),
            ).concat(": ffprobe has no descriptor for pixel format ").concat(
                crate::warning::debug_text_of(format).as_str(),
            ),
        }
    }
}

/// What to transcode, where to, and how.
#[derive(Debug)]
pub struct TranscodeRequest {
    pub input: String,
    pub output: String,
    pub container: Option<Container>,
    pub video: VideoAction,
    pub decoding: DecodingBackend,
    pub overwrite: bool,
}

/// Where an attachment of the output comes from.
#[derive(Debug, Clone, Copy, PartialEq, Eq, Structural)]
pub enum AttachmentInput {
    CoverFrame,
    AttachmentStream,
}

/// An input stream that is written as an attachment of the output.
#[derive(Debug)]
pub struct PlannedAttachment {
    pub input_index: usize,
    pub output_index: usize,
    pub metadata: Tags,
    pub input: AttachmentInput,
}

/// The FFmpeg arguments of a transcode and the attachments it writes.
#[derive(Debug)]
pub struct TranscodePlan {
    pub input: String,
    pub output: String,
    pub args: Vec<String>,
    pub attachments: Vec<PlannedAttachment>,
    pub input_position: usize,
}

/// The container a request writes for an input: the one it names, else the
/// input's own.
pub open spec fn chosen_container(r: TranscodeRequest, m: MediaInfo) -> Option<Container> {
    match r.container {
        Some(c) => Some(c),
        None => match opt_view(m.format.format_name) {
            Some(f) => input_container(r.input@, f),
            None => None,
        },
    }
}

/// Whether the probe found a timed video stream.
pub open spec fn has_regular_video(m: MediaInfo) -> bool {
    exists|i: int| 0 <= i < m.streams@.len() && regular_video(#[trigger] m.streams@[i])
}

/// The encoding a request applies: its encoder, when the input has timed video.
pub open spec fn active_encoding_of(r: TranscodeRequest, m: MediaInfo) -> Option<VideoEncoding> {
    match r.video {
        VideoAction::Encode(e) => if has_regular_video(m) {
            Some(e)
        } else {
            None
        },
        VideoAction::Copy => None,
    }
}

/// Tags as plain pairs.
pub type TagView = Seq<(Seq<char>, Seq<char>)>;

/// `e` with `k` set to `v`, unless some key already equals `k` ignoring ASCII case.
pub open spec fn with_tag(e: TagView, k: Seq<char>, v: Seq<char>) -> TagView {
    if has_key_ignoring_case(e, k) {
        e
    } else {
        e.insert(insert_position(e, k) as int, (k, v))
    }
}

/// The file extension and MIME type of a cover image codec.
pub open spec fn cover_image(s: MediaStream) -> Option<(Seq<char>, Seq<char>)> {
    if opt_view(s.codec_name) == Some("png"@) {
        Some(("png"@, "image/png"@))
    } else if opt_view(s.codec_name) == Some("mjpeg"@) {
        Some(("jpg"@, "image/jpeg"@))
    } else {
        None
    }
}

/// The attachment file name of the cover with the given ordinal.
pub open spec fn cover_file_name(ordinal: nat, ext: Seq<char>) -> Seq<char> {
    if ordinal == 0 {
        "cover."@ + ext
    } else {
        "cover-"@ + decimal(ordinal) + "."@ + ext
    }
}

/// The tags a cover is attached with: its own, completed with a file name and a
/// MIME type when it has none and its codec is a known image format.
pub open spec fn cover_metadata(s: MediaStream, ordinal: nat) -> TagView {
    let own = s.tags.view_pairs();
    match cover_image(s) {
        Some((ext, mime)) => with_tag(
            with_tag(own, "filename"@, cover_file_name(ordinal, ext)),
            "mimetype"@,
            mime,
        ),
        None => own,
    }
}

/// The planner's running state: options before the input, options after it,
/// attachments so far, covers seen, whether a timed stream is copied alongside
/// encoded video, and streams mapped.
pub type PlanState = (
    Seq<Seq<char>>,
    Seq<Seq<char>>,
    Seq<(usize, AttachmentInput, TagView)>,
    nat,
    bool,
    nat,
);

/// Whether `s` is an attached picture written to Matroska as an attachment.
pub open spec fn is_cover_attachment(c: Container, s: MediaStream) -> bool {
    c == Container::Matroska && opt_view(s.codec_type) == Some("video"@) && !regular_video(s)
}

/// Whether `s` is a Matroska attachment re-attached around an encode.
pub open spec fn is_native_attachment(c: Container, e: Option<VideoEncoding>, s: MediaStream) -> bool {
    c == Container::Matroska && e is Some && opt_view(s.codec_type) == Some("attachment"@)
}

/// The target pixel format for an encoded stream whose frames are in `src`.
pub open spec fn stream_target(
    e: VideoEncoding,
    m: MediaInfo,
    src: crate::media::PixelFormat,
    formats: Seq<Seq<char>>,
) -> Seq<char> {
    if e is Vaapi {
        surface_target(src)
    } else {
        encoder_target(m.pixel_formats@, src, formats)
    }
}

/// One stream's effect on the planner's state, or the stream whose pixel format has
/// no descriptor (its index and format).
#[verifier::opaque]
pub open spec fn plan_step(
    c: Container,
    e: Option<VideoEncoding>,
    d: DecodingBackend,
    m: MediaInfo,
    formats: Seq<Seq<char>>,
    st: PlanState,
    s: MediaStream,
) -> Result<PlanState, (usize, Option<Seq<char>>)> {
    let (ins, outs, atts, covers, copied, mapped) = st;
    if is_cover_attachment(c, s) {
        Ok(
            (
                ins,
                outs,
                atts.push((s.index, AttachmentInput::CoverFrame, cover_metadata(s, covers))),
                covers + 1,
                copied,
                mapped,
            ),
        )
    } else if is_native_attachment(c, e, s) {
        Ok(
            (
                ins,
                outs,
                atts.push((s.index, AttachmentInput::AttachmentStream, s.tags.view_pairs())),
                covers,
                copied,
                mapped,
            ),
        )
    } else {
        let mapped_outs = outs + seq!["-map"@, indexed("0:"@, s.index as nat)];
        match e {
            None => Ok((ins, mapped_outs, atts, covers, copied, mapped + 1)),
            Some(enc) => if !regular_video(s) {
                Ok(
                    (
                        ins,
                        mapped_outs + if opt_view(s.codec_type) == Some("video"@) {
                            seq![indexed("-c:"@, mapped), "copy"@]
                        } else {
                            seq![]
                        },
                        atts,
                        covers,
                        copied || opt_view(s.codec_type) != Some("attachment"@),
                        mapped + 1,
                    ),
                )
            } else {
                match stream_descriptor(m, s) {
                    None => Err((s.index, opt_view(s.pix_fmt))),
                    Some(src) => Ok(
                        (
                            ins + frame_input_args(d, enc, s.index),
                            mapped_outs + frame_output_args(
                                d,
                                enc,
                                src,
                                mapped as usize,
                                stream_target(enc, m, src, formats),
                            ),
                            atts,
                            covers,
                            copied,
                            mapped + 1,
                        ),
                    ),
                }
            },
        }
    }
}

/// The planner's state after the streams `ss`, starting from `init`.
pub open spec fn plan_streams(
    c: Container,
    e: Option<VideoEncoding>,
    d: DecodingBackend,
    m: MediaInfo,
    formats: Seq<Seq<char>>,
    init: PlanState,
    ss: Seq<MediaStream>,
) -> Result<PlanState, (usize, Option<Seq<char>>)>
    decreases ss.len(),
{
    if ss.len() == 0 {
        Ok(init)
    } else {
        match plan_streams(c, e, d, m, formats, init, ss.drop_last()) {
            Ok(st) => plan_step(c, e, d, m, formats, st, ss.last()),
            Err(x) => Err(x),
        }
    }
}

/// The options before the input that do not depend on streams.
pub open spec fn leading_args(r: TranscodeRequest, e: Option<VideoEncoding>) -> Seq<Seq<char>> {
    (if r.overwrite {
        seq!["-y"@]
    } else {
        seq!["-n"@]
    }) + match e {
        Some(VideoEncoding::Vaapi { device, .. }) => if direct_target(r.decoding, e.unwrap()) is None {
            seq!["-vaapi_device"@, device@]
        } else {
            seq![]
        },
        _ => seq![],
    }
}

/// The options after the input that do not depend on streams.
pub open spec fn common_output_args(e: Option<VideoEncoding>) -> Seq<Seq<char>> {
    seq!["-map_metadata"@, "0"@, "-map_chapters"@, "0"@, "-c"@, "copy"@] + match e {
        Some(enc) => seq!["-c:v"@, encoding_name(enc)] + encoding_options(enc),
        None => seq![],
    }
}

/// The options after all streams: bounded interleaving when Matroska copies a timed
/// stream next to encoded video, and the M2TS packet mode.
pub open spec fn trailing_args(c: Container, e: Option<VideoEncoding>, copied: bool) -> Seq<Seq<char>> {
    (if c == Container::Matroska && e is Some && copied {
        seq!["-max_interleave_delta"@, "0"@]
    } else {
        seq![]
    }) + if c == Container::M2ts {
        seq!["-mpegts_m2ts_mode"@, "1"@]
    } else {
        seq![]
    }
}

/// The state planning starts from.
pub open spec fn initial_state(r: TranscodeRequest, e: Option<VideoEncoding>) -> PlanState {
    (leading_args(r, e), common_output_args(e), seq![], 0, false, 0)
}

/// The planner's state after every stream of `m`.
pub open spec fn planned(
    r: TranscodeRequest,
    m: MediaInfo,
    c: Container,
    formats: Seq<Seq<char>>,
) -> Result<PlanState, (usize, Option<Seq<char>>)> {
    let e = active_encoding_of(r, m);
    plan_streams(c, e, r.decoding, m, formats, initial_state(r, e), m.streams@)
}

/// Whether `p` is the plan of request `r` writing `c`, from the final state `st`.
pub open spec fn plan_from_state(
    p: TranscodePlan,
    r: TranscodeRequest,
    m: MediaInfo,
    c: Container,
    st: PlanState,
) -> bool {
    let e = active_encoding_of(r, m);
    let (ins, outs, atts, covers, copied, mapped) = st;
    &&& p.input@ == r.input@
    &&& p.output@ == r.output@
    &&& p.input_position == ins.len()
    &&& string_views(p.args@) == ins + seq!["-i"@, r.input@] + outs + trailing_args(c, e, copied)
        + seq!["-f"@, container_muxer(c)]
    &&& p.attachments@.len() == atts.len()
    &&& forall|k: int|
        0 <= k < atts.len() ==> {
            &&& (#[trigger] p.attachments@[k]).input_index == atts[k].0
            &&& p.attachments@[k].input == atts[k].1
            &&& p.attachments@[k].metadata.view_pairs() == atts[k].2
            &&& p.attachments@[k].output_index == mapped + k
        }
}

/// The encoding behind an optional reference.
pub open spec fn encoding_view(e: Option<&VideoEncoding>) -> Option<VideoEncoding> {
    match e {
        Some(x) => Some(*x),
        None => None,
    }
}

/// The planner's running state.
struct Planner {
    input_args: Vec<String>,
    output_args: Vec<String>,
    attachments: Vec<(usize, AttachmentInput, Tags)>,
    covers: usize,
    copied: bool,
    mapped: usize,
}

/// The attachments of a planner as plain values.
spec fn attachment_views(a: Seq<(usize, AttachmentInput, Tags)>) -> Seq<(usize, AttachmentInput, TagView)> {
    a.map_values(|x: (usize, AttachmentInput, Tags)| (x.0, x.1, x.2.view_pairs()))
}

impl Planner {
    spec fn state(&self) -> PlanState {
        (
            string_views(self.input_args@),
            string_views(self.output_args@),
            attachment_views(self.attachments@),
            self.covers as nat,
            self.copied,
            self.mapped as nat,
        )
    }
}

/// Sets `key` to `value` unless some key equals it ignoring ASCII case.
fn set_if_absent(t: &mut Tags, key: &str, value: String)
    ensures
        final(t).view_pairs() == with_tag(old(t).view_pairs(), key@, value@),
{
    if !t.has_key_ignoring_case(key) {
        t.insert(String::from_str(key), value);
    }
}

/// The tags a cover is attached with.
fn cover_tags(s: &MediaStream, ordinal: usize) -> (t: Tags)
    ensures
        t.view_pairs() == cover_metadata(*s, ordinal as nat),
{
    let mut t = s.tags.duplicate();
    let image = if opt_is(&s.codec_name, "png") {
        Some(("png", "image/png"))
    } else if opt_is(&s.codec_name, "mjpeg") {
        Some(("jpg", "image/jpeg"))
    } else {
        None
    };
    match image {
        Some((ext, mime)) => {
            let name = if ordinal == 0 {
                String::from_str("cover.").concat(ext)
            } else {
                String::from_str("cover-").concat(decimal_string(ordinal as u64).as_str()).concat(
                    ".",
                ).concat(ext)
            };
            set_if_absent(&mut t, "filename", name);
            set_if_absent(&mut t, "mimetype", String::from_str(mime));
        },
        None => {},
    }
    t
}

/// Applies one stream to the planner.
fn plan_stream(
    c: Container,
    e: Option<&VideoEncoding>,
    d: &DecodingBackend,
    m: &MediaInfo,
    formats: &[String],
    st: &mut Planner,
    s: &MediaStream,
) -> (r: Result<(), PlanError>)
    requires
        old(st).mapped < usize::MAX,
        old(st).covers < usize::MAX,
    ensures
        match plan_step(c, encoding_view(e), *d, *m, names(formats@), old(st).state(), *s) {
            Ok(next) => r is Ok && final(st).state() == next,
            Err((i, f)) => r matches Err(PlanError::MissingPixelFormat { stream_index, format })
                && stream_index == i && opt_view(format) == f,
        },
{
    reveal(plan_step);
    let ghost before = st.state();
    let video = opt_is(&s.codec_type, "video");
    let regular = s.is_regular_video();
    if c == Container::Matroska && video && !regular {
        let t = cover_tags(s, st.covers);
        let ghost atts = st.attachments@;
        st.attachments.push((s.index, AttachmentInput::CoverFrame, t));
        assert(attachment_views(st.attachments@) =~= attachment_views(atts).push(
            (s.index, AttachmentInput::CoverFrame, cover_metadata(*s, before.3)),
        ));
        st.covers = st.covers + 1;
        return Ok(());
    }
    let attachment = opt_is(&s.codec_type, "attachment");
    if c == Container::Matroska && e.is_some() && attachment {
        let t = s.tags.duplicate();
        let ghost atts = st.attachments@;
        st.attachments.push((s.index, AttachmentInput::AttachmentStream, t));
        assert(attachment_views(st.attachments@) =~= attachment_views(atts).push(
            (s.index, AttachmentInput::AttachmentStream, s.tags.view_pairs()),
        ));
        return Ok(());
    }
    let output_index = st.mapped;
    st.mapped = st.mapped + 1;
    add_arg(&mut st.output_args, Arg::MapStream(s.index));
    let enc = match e {
        Some(x) => x,
        None => return Ok(()),
    };
    if !regular {
        if !attachment {
            st.copied = true;
        }
        if video {
            add_arg(&mut st.output_args, Arg::CopyStream(output_index));
        }
        proof {
            reveal_strlit("copy");
        }
        assert(st.state().1 =~= before.1 + seq!["-map"@, indexed("0:"@, s.index as nat)] + if video {
            seq![indexed("-c:"@, output_index as nat), "copy"@]
        } else {
            seq![]
        });
        return Ok(());
    }
    let source = match m.pixel_format(s) {
        Some(p) => p,
        None => {
            let format = match &s.pix_fmt {
                Some(f) => Some(f.clone()),
                None => None,
            };
            return Err(PlanError::MissingPixelFormat { stream_index: s.index, format });
        },
    };
    let target = match enc {
        VideoEncoding::Vaapi { .. } => vaapi_qsv_format(source),
        _ => encoder_format(m, source, formats),
    };
    let frame = d.plan(enc, source, s.index, output_index, target.as_str());
    let mut fi = frame.input_args;
    let mut fo = frame.output_args;
    let ghost ins = string_views(st.input_args@);
    let ghost outs = string_views(st.output_args@);
    let ghost fiv = string_views(fi@);
    let ghost fov = string_views(fo@);
    st.input_args.append(&mut fi);
    st.output_args.append(&mut fo);
    assert(string_views(st.input_args@) =~= ins + fiv);
    assert(string_views(st.output_args@) =~= outs + fov);
    Ok(())
}

impl TranscodeRequest {
    /// A request to copy `input` to `output` in the input's own container,
    /// decoding in software and keeping an existing output.
    pub fn new(input: String, output: String) -> (r: TranscodeRequest)
        ensures
            r.input == input,
            r.output == output,
            r.container is None,
            r.video is Copy,
            r.decoding is Software,
            !r.overwrite,
    {
        TranscodeRequest {
            input,
            output,
            container: None,
            video: VideoAction::Copy,
            decoding: DecodingBackend::Software,
            overwrite: false,
        }
    }

    /// `new`, writing `container`.
    pub fn with_new_container(input: String, output: String, container: Container) -> (r: TranscodeRequest)
        ensures
            r == (TranscodeRequest {
                input,
                output,
                container: Some(container),
                video: VideoAction::Copy,
                decoding: DecodingBackend::Software,
                overwrite: false,
            }),
    {
        TranscodeRequest::new(input, output).with_container(container)
    }

    /// A Matroska request.
    pub fn mkv(input: String, output: String) -> (r: TranscodeRequest)
        ensures
            r == TranscodeRequest::new_spec(input, output, Container::Matroska),
    {
        Self::with_new_container(input, output, Container::Matroska)
    }

    /// The request `new` gives, writing `c`.
    pub open spec fn new_spec(input: String, output: String, c: Container) -> TranscodeRequest {
        TranscodeRequest {
            input,
            output,
            container: Some(c),
            video: VideoAction::Copy,
            decoding: DecodingBackend::Software,
            overwrite: false,
        }
    }

    /// An MP4 request.
    pub fn mp4(input: String, output: String) -> (r: TranscodeRequest)
        ensures
            r == TranscodeRequest::new_spec(input, output, Container::Mp4),
    {
        Self::with_new_container(input, output, Container::Mp4)
    }

    /// A QuickTime request.
    pub fn mov(input: String, output: String) -> (r: TranscodeRequest)
        ensures
            r == TranscodeRequest::new_spec(input, output, Container::Mov),
    {
        Self::with_new_container(input, output, Container::Mov)
    }

    /// An M4A request.
    pub fn m4a(input: String, output: String) -> (r: TranscodeRequest)
        ensures
            r == TranscodeRequest::new_spec(input, output, Container::M4a),
    {
        Self::with_new_container(input, output, Container::M4a)
    }

    /// A 3GP request.
    pub fn three_gp(input: String, output: String) -> (r: TranscodeRequest)
        ensures
            r == TranscodeRequest::new_spec(input, output, Container::ThreeGp),
    {
        Self::with_new_container(input, output, Container::ThreeGp)
    }

    /// A 3G2 request.
    pub fn three_g2(input: String, output: String) -> (r: TranscodeRequest)
        ensures
            r == TranscodeRequest::new_spec(input, output, Container::ThreeG2),
    {
        Self::with_new_container(input, output, Container::ThreeG2)
    }

    /// An F4V request.
    pub fn f4v(input: String, output: String) -> (r: TranscodeRequest)
        ensures
            r == TranscodeRequest::new_spec(input, output, Container::F4v),
    {
        Self::with_new_container(input, output, Container::F4v)
    }

    /// An ISMV request.
    pub fn ismv(input: String, output: String) -> (r: TranscodeRequest)
        ensures
            r == TranscodeRequest::new_spec(input, output, Container::Ismv),
    {
        Self::with_new_container(input, output, Container::Ismv)
    }

    /// A PSP request.
    pub fn psp(input: String, output: String) -> (r: TranscodeRequest)
        ensures
            r == TranscodeRequest::new_spec(input, output, Container::Psp),
    {
        Self::with_new_container(input, output, Container::Psp)
    }

    /// A WebM request.
    pub fn webm(input: String, output: String) -> (r: TranscodeRequest)
        ensures
            r == TranscodeRequest::new_spec(input, output, Container::Webm),
    {
        Self::with_new_container(input, output, Container::Webm)
    }

    /// An MPEG-TS request.
    pub fn mpeg_ts(input: String, output: String) -> (r: TranscodeRequest)
        ensures
            r == TranscodeRequest::new_spec(input, output, Container::MpegTs),
    {
        Self::with_new_container(input, output, Container::MpegTs)
    }

    /// An M2TS request.
    pub fn m2ts(input: String, output: String) -> (r: TranscodeRequest)
        ensures
            r == TranscodeRequest::new_spec(input, output, Container::M2ts),
    {
        Self::with_new_container(input, output, Container::M2ts)
    }

    /// An AVI request.
    pub fn avi(input: String, output: String) -> (r: TranscodeRequest)
        ensures
            r == TranscodeRequest::new_spec(input, output, Container::Avi),
    {
        Self::with_new_container(input, output, Container::Avi)
    }

    /// An FLV request.
    pub fn flv(input: String, output: String) -> (r: TranscodeRequest)
        ensures
            r == TranscodeRequest::new_spec(input, output, Container::Flv),
    {
        Self::with_new_container(input, output, Container::Flv)
    }

    /// An ASF request.
    pub fn asf(input: String, output: String) -> (r: TranscodeRequest)
        ensures
            r == TranscodeRequest::new_spec(input, output, Container::Asf),
    {
        Self::with_new_container(input, output, Container::Asf)
    }

    /// A WMV request.
    pub fn wmv(input: String, output: String) -> (r: TranscodeRequest)
        ensures
            r == TranscodeRequest::new_spec(input, output, Container::Wmv),
    {
        Self::with_new_container(input, output, Container::Wmv)
    }

    /// An MPEG program stream request.
    pub fn mpeg_ps(input: String, output: String) -> (r: TranscodeRequest)
        ensures
            r == TranscodeRequest::new_spec(input, output, Container::MpegPs),
    {
        Self::with_new_container(input, output, Container::MpegPs)
    }

    /// A VOB request.
    pub fn vob(input: String, output: String) -> (r: TranscodeRequest)
        ensures
            r == TranscodeRequest::new_spec(input, output, Container::Vob),
    {
        Self::with_new_container(input, output, Container::Vob)
    }

    /// An Ogg request.
    pub fn ogg(input: String, output: String) -> (r: TranscodeRequest)
        ensures
            r == TranscodeRequest::new_spec(input, output, Container::Ogg),
    {
        Self::with_new_container(input, output, Container::Ogg)
    }

    /// An Ogg video request.
    pub fn ogv(input: String, output: String) -> (r: TranscodeRequest)
        ensures
            r == TranscodeRequest::new_spec(input, output, Container::Ogv),
    {
        Self::with_new_container(input, output, Container::Ogv)
    }

    /// The request with another input.
    pub fn with_input(self, input: String) -> (r: TranscodeRequest)
        ensures
            r == (TranscodeRequest { input, ..self }),
    {
        TranscodeRequest { input, ..self }
    }

    /// The request with another output.
    pub fn with_output(self, output: String) -> (r: TranscodeRequest)
        ensures
            r == (TranscodeRequest { output, ..self }),
    {
        TranscodeRequest { output, ..self }
    }

    /// The request writing `container`.
    pub fn with_container(self, container: Container) -> (r: TranscodeRequest)
        ensures
            r == (TranscodeRequest { container: Some(container), ..self }),
    {
        TranscodeRequest { container: Some(container), ..self }
    }

    /// The request with another video action.
    pub fn with_video(self, video: VideoAction) -> (r: TranscodeRequest)
        ensures
            r == (TranscodeRequest { video, ..self }),
    {
        TranscodeRequest { video, ..self }
    }

    /// The request decoding with `decoding`.
    pub fn with_decoding(self, decoding: DecodingBackend) -> (r: TranscodeRequest)
        ensures
            r == (TranscodeRequest { decoding, ..self }),
    {
        TranscodeRequest { decoding, ..self }
    }

    /// The request with the overwrite choice `overwrite`.
    pub fn with_overwrite(self, overwrite: bool) -> (r: TranscodeRequest)
        ensures
            r == (TranscodeRequest { overwrite, ..self }),
    {
        TranscodeRequest { overwrite, ..self }
    }

    /// The container this request writes for `media`.
    pub fn output_container(&self, media: &MediaInfo) -> (r: Result<Container, PlanError>)
        ensures
            match chosen_container(*self, *media) {
                Some(c) => r == Ok::<Container, PlanError>(c),
                None => r matches Err(PlanError::UnsupportedContainer { format }) && opt_view(format)
                    == opt_view(media.format.format_name),
            },
    {
        match self.container {
            Some(c) => return Ok(c),
            None => {},
        }
        let format = match &media.format.format_name {
            Some(f) => Some(f.as_str()),
            None => None,
        };
        match Container::from_input(self.input.as_str(), format) {
            Some(c) => Ok(c),
            None => {
                let format = match &media.format.format_name {
                    Some(f) => Some(f.clone()),
                    None => None,
                };
                Err(PlanError::UnsupportedContainer { format })
            },
        }
    }

    /// The encoding this request applies to `media`.
    pub fn active_encoding(&self, media: &MediaInfo) -> (r: Option<&VideoEncoding>)
        ensures
            encoding_view(r) == active_encoding_of(*self, *media),
    {
        match &self.video {
            VideoAction::Encode(e) => {
                let mut i: usize = 0;
                while i < media.streams.len()
                    invariant
                        i <= media.streams@.len(),
                        self.video == VideoAction::Encode(*e),
                        forall|j: int| 0 <= j < i ==> !regular_video(#[trigger] media.streams@[j]),
                    decreases media.streams@.len() - i,
                {
                    if media.streams[i].is_regular_video() {
                        assert(regular_video(media.streams@[i as int]));
                        return Some(e);
                    }
                    i += 1;
                }
                None
            },
            VideoAction::Copy => None,
        }
    }
}

impl TranscodeRequest {
    /// The plan of this request for `media`, for an encoder that accepts the pixel
    /// formats `formats` (empty when not queried).
    pub fn build(&self, media: &MediaInfo, formats: &[String]) -> (r: Result<TranscodePlan, PlanError>)
        ensures
            match chosen_container(*self, *media) {
                None => r matches Err(PlanError::UnsupportedContainer { format }) && opt_view(format)
                    == opt_view(media.format.format_name),
                Some(c) => match planned(*self, *media, c, names(formats@)) {
                    Err((i, f)) => r matches Err(PlanError::MissingPixelFormat { stream_index, format })
                        && stream_index == i && opt_view(format) == f,
                    Ok(st) => r matches Ok(p) && plan_from_state(p, *self, *media, c, st),
                },
            },
    {
        let container = match self.output_container(media) {
            Ok(c) => c,
            Err(e) => return Err(e),
        };
        let encoding = self.active_encoding(media);
        let ghost e = encoding_view(encoding);
        let mut st = Planner {
            input_args: Vec::new(),
            output_args: Vec::new(),
            attachments: Vec::new(),
            covers: 0,
            copied: false,
            mapped: 0,
        };
        assert(string_views(st.input_args@) =~= seq![]);
        assert(string_views(st.output_args@) =~= seq![]);
        assert(attachment_views(st.attachments@) =~= seq![]);
        add_arg(&mut st.input_args, Arg::Overwrite(self.overwrite));
        add_arg(&mut st.output_args, Arg::MapMetadata);
        add_arg(&mut st.output_args, Arg::MapChapters);
        add_arg(&mut st.output_args, Arg::CopyAll);
        match encoding {
            Some(enc) => {
                add_arg(&mut st.output_args, Arg::VideoCodec(String::from_str(enc.name())));
                enc.append_options(&mut st.output_args);
                match enc {
                    VideoEncoding::Vaapi { device, .. } => {
                        if self.decoding.direct_format(enc).is_none() {
                            add_arg(&mut st.input_args, Arg::VaapiDevice(device.clone()));
                        }
                    },
                    _ => {},
                }
            },
            None => {},
        }
        proof {
            reveal_strlit("-y");
            reveal_strlit("-n");
        }
        assert(st.state().0 =~= initial_state(*self, e).0);
        assert(st.state().1 =~= initial_state(*self, e).1);
        assert(st.state() == initial_state(*self, e));
        let ghost fs = names(formats@);
        let ghost init = initial_state(*self, e);
        let mut i: usize = 0;
        assert(media.streams@.take(0) =~= Seq::<MediaStream>::empty());
        while i < media.streams.len()
            invariant
                i <= media.streams@.len(),
                e == encoding_view(encoding),
                e == active_encoding_of(*self, *media),
                init == initial_state(*self, e),
                fs == names(formats@),
                st.mapped + st.attachments@.len() <= i,
                st.attachments@.len() == st.state().2.len(),
                chosen_container(*self, *media) == Some(container),
                st.covers <= i,
                plan_streams(container, e, self.decoding, *media, fs, init, media.streams@.take(i as int))
                    == Ok::<PlanState, (usize, Option<Seq<char>>)>(st.state()),
            decreases media.streams@.len() - i,
        {
            proof {
                assert(media.streams@.take(i + 1).drop_last() =~= media.streams@.take(i as int));
                assert(media.streams@.take(i + 1).last() == media.streams@[i as int]);
            }
            let ghost pre = st.state();
            let ghost pre_len = st.attachments@.len();
            assert(plan_streams(container, e, self.decoding, *media, fs, init, media.streams@.take(i + 1))
                == plan_step(container, e, self.decoding, *media, fs, pre, media.streams@[i as int]));
            match plan_stream(container, encoding, &self.decoding, media, formats, &mut st, &media.streams[i]) {
                Ok(()) => {
                    proof {
                        lemma_step_counts(container, e, self.decoding, *media, fs, pre, media.streams@[i as int]);
                        assert(attachment_views(st.attachments@).len() == st.attachments@.len());
                    }
                },
                Err(x) => {
                    proof {
                        assert(plan_step(container, e, self.decoding, *media, fs, pre, media.streams@[i as int]) is Err);
                        lemma_plan_error_sticks(container, e, self.decoding, *media, fs, init, media.streams@, i as nat + 1);
                        assert(media.streams@.take(media.streams@.len() as int) =~= media.streams@);
                        assert(chosen_container(*self, *media) == Some(container));
                        assert(planned(*self, *media, container, fs) == plan_step(container, e, self.decoding, *media, fs, pre, media.streams@[i as int]));
                    }
                    return Err(x);
                },
            }
            i += 1;
        }
        assert(media.streams@.take(media.streams@.len() as int) =~= media.streams@);
        let ghost fin = st.state();
        assert(fin.2.len() == st.attachments@.len());
        let matroska = container == Container::Matroska;
        if matroska && encoding.is_some() && st.copied {
            add_arg(&mut st.output_args, Arg::MaxInterleaveDelta(0));
        }
        if container == Container::M2ts {
            add_arg(&mut st.output_args, Arg::M2tsMode);
        }
        proof {
            reveal_strlit("0");
            assert(decimal(0) =~= "0"@);
        }
        assert(string_views(st.output_args@) =~= fin.1 + trailing_args(container, e, fin.4));
        let input_position = st.input_args.len();
        let mut args = st.input_args;
        add_arg(&mut args, Arg::Input(self.input.clone()));
        let ghost head = string_views(args@);
        let mut outs = st.output_args;
        let ghost ov = string_views(outs@);
        args.append(&mut outs);
        assert(string_views(args@) =~= head + ov);
        add_arg(&mut args, Arg::Format(String::from_str(container.muxer())));
        let mut attachments: Vec<PlannedAttachment> = Vec::new();
        let mut k: usize = 0;
        let ghost atts = fin.2;
        let n = media.streams.len();
        let pending = st.attachments;
        while k < pending.len()
            invariant
                k <= pending@.len(),
                atts == attachment_views(pending@),
                st.mapped == fin.5,
                st.mapped + pending@.len() <= n,
                attachments@.len() == k,
                forall|j: int|
                    0 <= j < k ==> {
                        &&& (#[trigger] attachments@[j]).input_index == atts[j].0
                        &&& attachments@[j].input == atts[j].1
                        &&& attachments@[j].metadata.view_pairs() == atts[j].2
                        &&& attachments@[j].output_index == st.mapped + j
                    },
            decreases pending@.len() - k,
        {
            let (index, input, ref tags) = pending[k];
            attachments.push(PlannedAttachment {
                input_index: index,
                output_index: st.mapped + k,
                metadata: tags.duplicate(),
                input,
            });
            k += 1;
        }
        let p = TranscodePlan {
            input: self.input.clone(),
            output: self.output.clone(),
            args,
            attachments,
            input_position,
        };
        assert(planned(*self, *media, container, fs) == Ok::<PlanState, (usize, Option<Seq<char>>)>(fin));
        assert(p.input_position == fin.0.len());
        assert(string_views(p.args@) == fin.0 + seq!["-i"@, self.input@] + fin.1 + trailing_args(container, e, fin.4)
            + seq!["-f"@, container_muxer(container)]);
        assert(p.attachments@.len() == fin.2.len());
        Ok(p)
    }
}

/// Once planning fails, adding streams keeps the failure.
proof fn lemma_plan_error_sticks(
    c: Container,
    e: Option<VideoEncoding>,
    d: DecodingBackend,
    m: MediaInfo,
    fs: Seq<Seq<char>>,
    init: PlanState,
    ss: Seq<MediaStream>,
    n: nat,
)
    requires
        n <= ss.len(),
        plan_streams(c, e, d, m, fs, init, ss.take(n as int)) is Err,
    ensures
        plan_streams(c, e, d, m, fs, init, ss.take(ss.len() as int)) == plan_streams(c, e, d, m, fs, init, ss.take(n as int)),
    decreases ss.len() - n,
{
    if n < ss.len() {
        assert(ss.take(n + 1 as int).drop_last() =~= ss.take(n as int));
        lemma_plan_error_sticks(c, e, d, m, fs, init, ss, n + 1);
    }
}

/// Each stream either maps one output stream or adds one attachment.
proof fn lemma_step_counts(
    c: Container,
    e: Option<VideoEncoding>,
    d: DecodingBackend,
    m: MediaInfo,
    fs: Seq<Seq<char>>,
    st: PlanState,
    s: MediaStream,
)
    ensures
        plan_step(c, e, d, m, fs, st, s) matches Ok(next) ==> next.5 + next.2.len() == st.5 + st.2.len() + 1
            && next.3 <= st.3 + 1,
{
    reveal(plan_step);
}

/// An attachment of a plan as plain values: input index, source, tags.
pub open spec fn attachment_view(a: PlannedAttachment) -> (usize, AttachmentInput, TagView) {
    (a.input_index, a.input, a.metadata.view_pairs())
}

/// The attachments of a plan as plain values.
pub open spec fn plan_attachments(s: Seq<PlannedAttachment>) -> Seq<(usize, AttachmentInput, TagView)> {
    s.map_values(|a: PlannedAttachment| attachment_view(a))
}

/// The cover-frame attachments among `s`, in order.
pub open spec fn cover_frames(s: Seq<(usize, AttachmentInput, TagView)>) -> Seq<
    (usize, AttachmentInput, TagView),
>
    decreases s.len(),
{
    if s.len() == 0 {
        seq![]
    } else if s.last().1 == AttachmentInput::CoverFrame {
        cover_frames(s.drop_last()).push(s.last())
    } else {
        cover_frames(s.drop_last())
    }
}

/// The first position of `x` in `s`, or `s.len()`.
pub open spec fn token_position(s: Seq<Seq<char>>, x: Seq<char>) -> nat
    decreases s.len(),
{
    if s.len() == 0 {
        0
    } else if s[0] == x {
        0
    } else {
        1 + token_position(s.drop_first(), x)
    }
}

/// `s` with the token after the first `flag` replaced by `-1`.
pub open spec fn disable_mapping(s: Seq<Seq<char>>, flag: Seq<char>) -> Seq<Seq<char>> {
    s.update(token_position(s, flag) + 1 as int, "-1"@)
}

/// The arguments of a plan's sample: seeking to `start` before the input, limited to
/// `duration`, without global metadata or chapters.
pub open spec fn sample_args(a: Seq<Seq<char>>, position: nat, start: Seq<char>, duration: Seq<char>) -> Seq<
    Seq<char>,
> {
    let seeking = seeking_args(a, position, start, duration);
    disable_mapping(disable_mapping(seeking, "-map_metadata"@), "-map_chapters"@)
}

/// The arguments with the seek inserted and the duration appended.
pub open spec fn seeking_args(a: Seq<Seq<char>>, position: nat, start: Seq<char>, duration: Seq<char>) -> Seq<
    Seq<char>,
> {
    a.take(position as int) + seq!["-ss"@, start] + a.skip(position as int) + seq!["-t"@, duration]
}

/// Whether a plan can be sampled from `start` for `duration`: the input position
/// lies within the arguments, the metadata and chapter mappings are found with a
/// value after each, and attachment numbers fit.
pub open spec fn sample_ready(p: TranscodePlan, start: Seq<char>, duration: Seq<char>) -> bool {
    let a = string_views(p.args@);
    let s = seeking_args(a, p.input_position as nat, start, duration);
    &&& p.input_position <= a.len()
    &&& token_position(s, "-map_metadata"@) + 1 < s.len()
    &&& token_position(disable_mapping(s, "-map_metadata"@), "-map_chapters"@) + 1 < s.len()
    &&& (p.attachments@.len() > 0 ==> p.attachments@[0].output_index + p.attachments@.len()
        <= usize::MAX)
}

proof fn lemma_token_position(s: Seq<Seq<char>>, x: Seq<char>)
    ensures
        token_position(s, x) <= s.len(),
        token_position(s, x) < s.len() ==> s[token_position(s, x) as int] == x,
        forall|j: int| 0 <= j < token_position(s, x) ==> s[j] != x,
    decreases s.len(),
{
    if s.len() > 0 && s[0] != x {
        lemma_token_position(s.drop_first(), x);
        assert forall|j: int| 0 <= j < token_position(s, x) implies s[j] != x by {
            if j > 0 {
                assert(s[j] == s.drop_first()[j - 1]);
            }
        }
    }
}

proof fn lemma_token_position_is(s: Seq<Seq<char>>, x: Seq<char>, k: nat)
    requires
        k < s.len(),
        s[k as int] == x,
        forall|j: int| 0 <= j < k ==> s[j] != x,
    ensures
        token_position(s, x) == k,
    decreases k,
{
    if k > 0 {
        assert(s[0] != x);
        assert forall|j: int| 0 <= j < k - 1 implies s.drop_first()[j] != x by {
            assert(s.drop_first()[j] == s[j + 1]);
        }
        lemma_token_position_is(s.drop_first(), x, (k - 1) as nat);
    }
}

/// A copy of a list of strings.
pub fn copy_strings(v: &Vec<String>) -> (r: Vec<String>)
    ensures
        string_views(r@) == string_views(v@),
{
    let mut r: Vec<String> = Vec::new();
    let mut i: usize = 0;
    while i < v.len()
        invariant
            i <= v@.len(),
            string_views(r@) =~= string_views(v@).take(i as int),
        decreases v@.len() - i,
    {
        let ghost before = string_views(r@);
        r.push(v[i].clone());
        assert(string_views(r@) =~= before.push(v@[i as int]@));
        i += 1;
    }
    assert(string_views(v@).take(v@.len() as int) =~= string_views(v@));
    r
}

/// The position of the first token equal to `x`.
fn find_token(v: &Vec<String>, x: &str) -> (r: usize)
    ensures
        r == token_position(string_views(v@), x@),
{
    proof {
        lemma_token_position(string_views(v@), x@);
    }
    let mut i: usize = 0;
    while i < v.len()
        invariant
            i <= v@.len(),
            forall|j: int| 0 <= j < i ==> string_views(v@)[j] != x@,
        decreases v@.len() - i,
    {
        if crate::text::str_eq(v[i].as_str(), x) {
            proof {
                lemma_token_position_is(string_views(v@), x@, i as nat);
            }
            return i;
        }
        i += 1;
    }
    proof {
        if token_position(string_views(v@), x@) < v@.len() {
            let k = token_position(string_views(v@), x@);
            assert(string_views(v@)[k as int] == x@);
        }
    }
    v.len()
}

impl TranscodePlan {
    /// The tags the plan gives input stream `input_index` when it writes it as an
    /// attachment; `None` when the stream is mapped as usual.
    pub fn attachment_metadata(&self, input_index: usize) -> (r: Option<&Tags>)
        ensures
            r is None <==> forall|k: int|
                0 <= k < self.attachments@.len() ==> (#[trigger] self.attachments@[k]).input_index
                    != input_index,
            r matches Some(t) ==> exists|k: int|
                0 <= k < self.attachments@.len() && (#[trigger] self.attachments@[k]).input_index
                    == input_index && *t == self.attachments@[k].metadata && forall|j: int|
                    0 <= j < k ==> self.attachments@[j].input_index != input_index,
    {
        let mut k: usize = 0;
        while k < self.attachments.len()
            invariant
                k <= self.attachments@.len(),
                forall|j: int| 0 <= j < k ==> (#[trigger] self.attachments@[j]).input_index != input_index,
            decreases self.attachments@.len() - k,
        {
            if self.attachments[k].input_index == input_index {
                assert(self.attachments@[k as int].input_index == input_index);
                return Some(&self.attachments[k].metadata);
            }
            k += 1;
        }
        None
    }

    /// Whether this plan can be sampled from `start` for `duration`.
    pub fn can_sample(&self, start: &str, duration: &str) -> (r: bool)
        ensures
            r == sample_ready(*self, start@, duration@),
    {
        let ghost a = string_views(self.args@);
        let ghost ip = self.input_position as nat;
        if self.input_position > self.args.len() {
            return false;
        }
        let mut args: Vec<String> = Vec::new();
        let mut i: usize = 0;
        while i < self.args.len()
            invariant
                a == string_views(self.args@),
                ip == self.input_position,
                ip <= a.len(),
                i <= a.len(),
                string_views(args@) =~= if i <= ip {
                    a.take(i as int)
                } else {
                    a.take(ip as int) + seq!["-ss"@, start@] + a.subrange(ip as int, i as int)
                },
            decreases a.len() - i,
        {
            if i == self.input_position {
                add_arg(&mut args, Arg::Seek(String::from_str(start)));
            }
            let ghost before = string_views(args@);
            args.push(self.args[i].clone());
            assert(string_views(args@) =~= before.push(a[i as int]));
            i += 1;
        }
        if self.input_position == self.args.len() {
            add_arg(&mut args, Arg::Seek(String::from_str(start)));
        }
        add_arg(&mut args, Arg::Duration(String::from_str(duration)));
        let ghost seeking = seeking_args(a, ip, start@, duration@);
        assert(string_views(args@) =~= seeking);
        let p1 = find_token(&args, "-map_metadata");
        if p1 >= args.len() || p1 + 1 >= args.len() {
            return false;
        }
        args.set(p1 + 1, String::from_str("-1"));
        assert(string_views(args@) =~= disable_mapping(seeking, "-map_metadata"@));
        let p2 = find_token(&args, "-map_chapters");
        if p2 >= args.len() || p2 + 1 >= args.len() {
            return false;
        }
        if self.attachments.len() > 0 {
            self.attachments[0].output_index <= usize::MAX - self.attachments.len()
        } else {
            true
        }
    }

    /// A copy of this plan that encodes `duration` from `start` into `output`,
    /// without global metadata or chapters, keeping cover attachments only when
    /// `include_covers` holds (renumbered from the first attachment's index).
    pub fn sample(&self, start: &str, duration: &str, output: String, include_covers: bool) -> (r:
        TranscodePlan)
        requires
            sample_ready(*self, start@, duration@),
        ensures
            r.input@ == self.input@,
            r.output == output,
            r.input_position == self.input_position,
            string_views(r.args@) == sample_args(
                string_views(self.args@),
                self.input_position as nat,
                start@,
                duration@,
            ),
            plan_attachments(r.attachments@) == if include_covers {
                cover_frames(plan_attachments(self.attachments@))
            } else {
                seq![]
            },
            forall|k: int|
                0 <= k < r.attachments@.len() ==> (#[trigger] r.attachments@[k]).output_index
                    == self.attachments@[0].output_index + k,
    {
        let ghost a = string_views(self.args@);
        let ghost ip = self.input_position as nat;
        let mut args: Vec<String> = Vec::new();
        let mut i: usize = 0;
        while i < self.args.len()
            invariant
                a == string_views(self.args@),
                ip == self.input_position,
                ip <= a.len(),
                i <= a.len(),
                string_views(args@) =~= if i <= ip {
                    a.take(i as int)
                } else {
                    a.take(ip as int) + seq!["-ss"@, start@] + a.subrange(ip as int, i as int)
                },
            decreases a.len() - i,
        {
            if i == self.input_position {
                add_arg(&mut args, Arg::Seek(String::from_str(start)));
            }
            let ghost before = string_views(args@);
            args.push(self.args[i].clone());
            assert(string_views(args@) =~= before.push(a[i as int]));
            i += 1;
        }
        if self.input_position == self.args.len() {
            add_arg(&mut args, Arg::Seek(String::from_str(start)));
        }
        add_arg(&mut args, Arg::Duration(String::from_str(duration)));
        let ghost seeking = seeking_args(a, ip, start@, duration@);
        assert(string_views(args@) =~= seeking);
        let total = args.len();
        assert(total == seeking.len());
        let p1 = find_token(&args, "-map_metadata");
        args.set(p1 + 1, String::from_str("-1"));
        let ghost once = string_views(args@);
        assert(once =~= disable_mapping(seeking, "-map_metadata"@));
        let p2 = find_token(&args, "-map_chapters");
        args.set(p2 + 1, String::from_str("-1"));
        assert(string_views(args@) =~= disable_mapping(once, "-map_chapters"@));
        let ghost all = plan_attachments(self.attachments@);
        let mut attachments: Vec<PlannedAttachment> = Vec::new();
        if self.attachments.len() > 0 && include_covers {
            let first = self.attachments[0].output_index;
            let mut k: usize = 0;
            assert(all.take(0) =~= seq![]);
            while k < self.attachments.len()
                invariant
                    all == plan_attachments(self.attachments@),
                    k <= self.attachments@.len(),
                    first == self.attachments@[0].output_index,
                    first + self.attachments@.len() <= usize::MAX,
                    attachments@.len() <= k,
                    plan_attachments(attachments@) == cover_frames(all.take(k as int)),
                    forall|j: int|
                        0 <= j < attachments@.len() ==> (#[trigger] attachments@[j]).output_index
                            == first + j,
                decreases self.attachments@.len() - k,
            {
                proof {
                    assert(all.take(k + 1).drop_last() =~= all.take(k as int));
                    assert(all.take(k + 1).last() == attachment_view(self.attachments@[k as int]));
                }
                if self.attachments[k].input == AttachmentInput::CoverFrame {
                    let ghost before = plan_attachments(attachments@);
                    let n = attachments.len();
                    attachments.push(PlannedAttachment {
                        input_index: self.attachments[k].input_index,
                        output_index: first + n,
                        metadata: self.attachments[k].metadata.duplicate(),
                        input: AttachmentInput::CoverFrame,
                    });
                    assert(plan_attachments(attachments@) =~= before.push(attachment_view(self.attachments@[k as int])));
                }
                k += 1;
            }
            assert(all.take(self.attachments@.len() as int) =~= all);
        } else if include_covers {
            assert(all =~= seq![]);
        }
        assert(plan_attachments(attachments@).len() == attachments@.len());
        TranscodePlan {
            input: self.input.clone(),
            output,
            args,
            attachments,
            input_position: self.input_position,
        }
    }
}

/// The encoder whose accepted pixel formats planning needs: the active encoder,
/// unless it is VAAPI or receives hardware frames straight from the decoder.
pub open spec fn encoder_to_query(r: TranscodeRequest, m: MediaInfo) -> Option<Seq<char>> {
    match active_encoding_of(r, m) {
        Some(e) => if !(e is Vaapi) && direct_target(r.decoding, e) is None {
            Some(encoding_name(e))
        } else {
            None
        },
        None => None,
    }
}

impl TranscodeRequest {
    /// The encoder to ask FFmpeg for its pixel formats before building the plan.
    pub fn encoder_query(&self, media: &MediaInfo) -> (r: Option<&'static str>)
        ensures
            r matches Some(n) ==> encoder_to_query(*self, *media) == Some(n@),
            r is None ==> encoder_to_query(*self, *media) is None,
    {
        match self.active_encoding(media) {
            Some(e) => match e {
                VideoEncoding::Vaapi { .. } => None,
                _ => if self.decoding.direct_format(e).is_none() {
                    Some(e.name())
                } else {
                    None
                },
            },
            None => None,
        }
    }
}

} // verus!
