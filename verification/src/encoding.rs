//! Video encoders, their knobs, and the FFmpeg options each one produces.
use vstd::prelude::*;
use vstd::string::*;
use crate::args::{
    add_arg, arg_tokens, string_views, video_option_flag, Arg, VideoOption,
};
use crate::text::{lemma_split_once_join, 
    chars_eq_str, chars_of, decimal, decimal_string, parse_u8_chars, parse_unsigned,
    split_once, split_once_chars, all_digits, digits_value, unsigned_digits, str_eq,
};

verus! {

/// The VAAPI render node used when none is given.
pub const DEFAULT_VAAPI_DEVICE: &'static str = "/dev/dri/renderD128";

/// Appends `value` to `prefix` as a new string.
pub fn message(prefix: &str, value: &str) -> (s: String)
    ensures
        s@ == prefix@ + value@,
{
    String::from_str(prefix).concat(value)
}

/// Video codec family produced by a hardware encoder.
#[derive(Debug, Clone, Copy, PartialEq, Eq, Structural)]
pub enum VideoCodec {
    H264,
    Hevc,
    Av1,
}

pub open spec fn codec_text(c: VideoCodec) -> Seq<char> {
    match c {
        VideoCodec::H264 => "h264"@,
        VideoCodec::Hevc => "hevc"@,
        VideoCodec::Av1 => "av1"@,
    }
}

pub open spec fn codec_from_text(s: Seq<char>) -> Option<VideoCodec> {
    if s == "h264"@ {
        Some(VideoCodec::H264)
    } else if s == "hevc"@ {
        Some(VideoCodec::Hevc)
    } else if s == "av1"@ {
        Some(VideoCodec::Av1)
    } else {
        None
    }
}

pub open spec fn codec_label(c: VideoCodec) -> Seq<char> {
    match c {
        VideoCodec::H264 => "H.264"@,
        VideoCodec::Hevc => "HEVC"@,
        VideoCodec::Av1 => "AV1"@,
    }
}

impl VideoCodec {
    /// Parses `h264`, `hevc` or `av1`.
    pub fn from_str(s: &str) -> (r: Result<VideoCodec, String>)
        ensures
            r matches Ok(c) ==> codec_from_text(s@) == Some(c),
            r matches Err(m) ==> codec_from_text(s@) is None && m@ == "unknown video codec "@
                + s@,
    {
        if str_eq(s, "h264") {
            Ok(VideoCodec::H264)
        } else if str_eq(s, "hevc") {
            Ok(VideoCodec::Hevc)
        } else if str_eq(s, "av1") {
            Ok(VideoCodec::Av1)
        } else {
            Err(message("unknown video codec ", s))
        }
    }

    /// The display name of the codec.
    pub fn label(self) -> (s: &'static str)
        ensures
            s@ == codec_label(self),
    {
        match self {
            VideoCodec::H264 => "H.264",
            VideoCodec::Hevc => "HEVC",
            VideoCodec::Av1 => "AV1",
        }
    }
}

/// How the encoder's output rate is controlled.
#[derive(Debug, Clone, Copy, PartialEq, Eq, Structural)]
pub enum RateControl {
    /// A constant-quality value on the encoder's own scale.
    Quality(u8),
    /// A target bitrate in bits per second; the value is never zero.
    Bitrate(u64),
}

/// x264/x265 speed preset.
#[derive(Debug, Clone, Copy, PartialEq, Eq, Structural)]
pub enum Preset {
    Ultrafast,
    Superfast,
    Veryfast,
    Faster,
    Fast,
    Medium,
    Slow,
    Slower,
    Veryslow,
}

pub open spec fn preset_text(p: Preset) -> Seq<char> {
    match p {
        Preset::Ultrafast => "ultrafast"@,
        Preset::Superfast => "superfast"@,
        Preset::Veryfast => "veryfast"@,
        Preset::Faster => "faster"@,
        Preset::Fast => "fast"@,
        Preset::Medium => "medium"@,
        Preset::Slow => "slow"@,
        Preset::Slower => "slower"@,
        Preset::Veryslow => "veryslow"@,
    }
}

pub open spec fn preset_from_text(s: Seq<char>) -> Option<Preset> {
    if s == "ultrafast"@ {
        Some(Preset::Ultrafast)
    } else if s == "superfast"@ {
        Some(Preset::Superfast)
    } else if s == "veryfast"@ {
        Some(Preset::Veryfast)
    } else if s == "faster"@ {
        Some(Preset::Faster)
    } else if s == "fast"@ {
        Some(Preset::Fast)
    } else if s == "medium"@ {
        Some(Preset::Medium)
    } else if s == "slow"@ {
        Some(Preset::Slow)
    } else if s == "slower"@ {
        Some(Preset::Slower)
    } else if s == "veryslow"@ {
        Some(Preset::Veryslow)
    } else {
        None
    }
}

impl Preset {
    /// The name FFmpeg expects for this preset.
    pub fn as_str(self) -> (s: &'static str)
        ensures
            s@ == preset_text(self),
    {
        match self {
            Preset::Ultrafast => "ultrafast",
            Preset::Superfast => "superfast",
            Preset::Veryfast => "veryfast",
            Preset::Faster => "faster",
            Preset::Fast => "fast",
            Preset::Medium => "medium",
            Preset::Slow => "slow",
            Preset::Slower => "slower",
            Preset::Veryslow => "veryslow",
        }
    }

    /// Parses a preset name.
    pub fn from_str(s: &str) -> (r: Result<Preset, String>)
        ensures
            r matches Ok(p) ==> preset_from_text(s@) == Some(p),
            r matches Err(m) ==> preset_from_text(s@) is None && m@ == "unknown x264/x265 preset "@
                + s@,
    {
        if str_eq(s, "ultrafast") {
            Ok(Preset::Ultrafast)
        } else if str_eq(s, "superfast") {
            Ok(Preset::Superfast)
        } else if str_eq(s, "veryfast") {
            Ok(Preset::Veryfast)
        } else if str_eq(s, "faster") {
            Ok(Preset::Faster)
        } else if str_eq(s, "fast") {
            Ok(Preset::Fast)
        } else if str_eq(s, "medium") {
            Ok(Preset::Medium)
        } else if str_eq(s, "slow") {
            Ok(Preset::Slow)
        } else if str_eq(s, "slower") {
            Ok(Preset::Slower)
        } else if str_eq(s, "veryslow") {
            Ok(Preset::Veryslow)
        } else {
            Err(message("unknown x264/x265 preset ", s))
        }
    }
}

/// Intel Quick Sync speed preset.
#[derive(Debug, Clone, Copy, PartialEq, Eq, Structural)]
pub enum QsvPreset {
    Veryfast,
    Faster,
    Fast,
    Medium,
    Slow,
    Slower,
    Veryslow,
}

pub open spec fn qsv_preset_text(p: QsvPreset) -> Seq<char> {
    match p {
        QsvPreset::Veryfast => "veryfast"@,
        QsvPreset::Faster => "faster"@,
        QsvPreset::Fast => "fast"@,
        QsvPreset::Medium => "medium"@,
        QsvPreset::Slow => "slow"@,
        QsvPreset::Slower => "slower"@,
        QsvPreset::Veryslow => "veryslow"@,
    }
}

pub open spec fn qsv_preset_from_text(s: Seq<char>) -> Option<QsvPreset> {
    if s == "veryfast"@ {
        Some(QsvPreset::Veryfast)
    } else if s == "faster"@ {
        Some(QsvPreset::Faster)
    } else if s == "fast"@ {
        Some(QsvPreset::Fast)
    } else if s == "medium"@ {
        Some(QsvPreset::Medium)
    } else if s == "slow"@ {
        Some(QsvPreset::Slow)
    } else if s == "slower"@ {
        Some(QsvPreset::Slower)
    } else if s == "veryslow"@ {
        Some(QsvPreset::Veryslow)
    } else {
        None
    }
}

impl QsvPreset {
    /// The name FFmpeg expects for this preset.
    pub fn as_str(self) -> (s: &'static str)
        ensures
            s@ == qsv_preset_text(self),
    {
        match self {
            QsvPreset::Veryfast => "veryfast",
            QsvPreset::Faster => "faster",
            QsvPreset::Fast => "fast",
            QsvPreset::Medium => "medium",
            QsvPreset::Slow => "slow",
            QsvPreset::Slower => "slower",
            QsvPreset::Veryslow => "veryslow",
        }
    }

    /// Parses a preset name.
    pub fn from_str(s: &str) -> (r: Result<QsvPreset, String>)
        ensures
            r matches Ok(p) ==> qsv_preset_from_text(s@) == Some(p),
            r matches Err(m) ==> qsv_preset_from_text(s@) is None && m@ == "unknown QSV preset "@
                + s@,
    {
        if str_eq(s, "veryfast") {
            Ok(QsvPreset::Veryfast)
        } else if str_eq(s, "faster") {
            Ok(QsvPreset::Faster)
        } else if str_eq(s, "fast") {
            Ok(QsvPreset::Fast)
        } else if str_eq(s, "medium") {
            Ok(QsvPreset::Medium)
        } else if str_eq(s, "slow") {
            Ok(QsvPreset::Slow)
        } else if str_eq(s, "slower") {
            Ok(QsvPreset::Slower)
        } else if str_eq(s, "veryslow") {
            Ok(QsvPreset::Veryslow)
        } else {
            Err(message("unknown QSV preset ", s))
        }
    }
}

/// NVENC preset, from the fastest `p1` to the slowest `p7`.
#[derive(Debug, Clone, Copy, PartialEq, Eq, Structural)]
pub enum NvencPreset {
    P1,
    P2,
    P3,
    P4,
    P5,
    P6,
    P7,
}

pub open spec fn nvenc_preset_text(p: NvencPreset) -> Seq<char> {
    match p {
        NvencPreset::P1 => "p1"@,
        NvencPreset::P2 => "p2"@,
        NvencPreset::P3 => "p3"@,
        NvencPreset::P4 => "p4"@,
        NvencPreset::P5 => "p5"@,
        NvencPreset::P6 => "p6"@,
        NvencPreset::P7 => "p7"@,
    }
}

pub open spec fn nvenc_preset_from_text(s: Seq<char>) -> Option<NvencPreset> {
    if s == "p1"@ {
        Some(NvencPreset::P1)
    } else if s == "p2"@ {
        Some(NvencPreset::P2)
    } else if s == "p3"@ {
        Some(NvencPreset::P3)
    } else if s == "p4"@ {
        Some(NvencPreset::P4)
    } else if s == "p5"@ {
        Some(NvencPreset::P5)
    } else if s == "p6"@ {
        Some(NvencPreset::P6)
    } else if s == "p7"@ {
        Some(NvencPreset::P7)
    } else {
        None
    }
}

impl NvencPreset {
    /// The name FFmpeg expects for this preset.
    pub fn as_str(self) -> (s: &'static str)
        ensures
            s@ == nvenc_preset_text(self),
    {
        match self {
            NvencPreset::P1 => "p1",
            NvencPreset::P2 => "p2",
            NvencPreset::P3 => "p3",
            NvencPreset::P4 => "p4",
            NvencPreset::P5 => "p5",
            NvencPreset::P6 => "p6",
            NvencPreset::P7 => "p7",
        }
    }

    /// Parses a preset name.
    pub fn from_str(s: &str) -> (r: Result<NvencPreset, String>)
        ensures
            r matches Ok(p) ==> nvenc_preset_from_text(s@) == Some(p),
            r matches Err(m) ==> nvenc_preset_from_text(s@) is None && m@
                == "unknown NVENC preset "@ + s@,
    {
        if str_eq(s, "p1") {
            Ok(NvencPreset::P1)
        } else if str_eq(s, "p2") {
            Ok(NvencPreset::P2)
        } else if str_eq(s, "p3") {
            Ok(NvencPreset::P3)
        } else if str_eq(s, "p4") {
            Ok(NvencPreset::P4)
        } else if str_eq(s, "p5") {
            Ok(NvencPreset::P5)
        } else if str_eq(s, "p6") {
            Ok(NvencPreset::P6)
        } else if str_eq(s, "p7") {
            Ok(NvencPreset::P7)
        } else {
            Err(message("unknown NVENC preset ", s))
        }
    }
}

/// NVENC multipass mode.
#[derive(Debug, Clone, Copy, PartialEq, Eq, Structural)]
pub enum NvencMultipass {
    Disabled,
    QuarterResolution,
    FullResolution,
}

pub open spec fn multipass_text(m: NvencMultipass) -> Seq<char> {
    match m {
        NvencMultipass::Disabled => "disabled"@,
        NvencMultipass::QuarterResolution => "qres"@,
        NvencMultipass::FullResolution => "fullres"@,
    }
}

pub open spec fn multipass_from_text(s: Seq<char>) -> Option<NvencMultipass> {
    if s == "disabled"@ {
        Some(NvencMultipass::Disabled)
    } else if s == "qres"@ {
        Some(NvencMultipass::QuarterResolution)
    } else if s == "fullres"@ {
        Some(NvencMultipass::FullResolution)
    } else {
        None
    }
}

impl NvencMultipass {
    /// The name FFmpeg expects for this mode.
    pub fn as_str(self) -> (s: &'static str)
        ensures
            s@ == multipass_text(self),
    {
        match self {
            NvencMultipass::Disabled => "disabled",
            NvencMultipass::QuarterResolution => "qres",
            NvencMultipass::FullResolution => "fullres",
        }
    }

    /// Parses a multipass mode.
    pub fn from_str(s: &str) -> (r: Result<NvencMultipass, String>)
        ensures
            r matches Ok(p) ==> multipass_from_text(s@) == Some(p),
            r matches Err(m) ==> multipass_from_text(s@) is None && m@
                == "unknown NVENC multipass mode "@ + s@,
    {
        if str_eq(s, "disabled") {
            Ok(NvencMultipass::Disabled)
        } else if str_eq(s, "qres") {
            Ok(NvencMultipass::QuarterResolution)
        } else if str_eq(s, "fullres") {
            Ok(NvencMultipass::FullResolution)
        } else {
            Err(message("unknown NVENC multipass mode ", s))
        }
    }
}

/// A video encoder together with its rate control and speed knobs.
#[derive(Debug, Clone)]
pub enum VideoEncoding {
    X264 { rate: Option<RateControl>, preset: Option<Preset> },
    X265 { rate: Option<RateControl>, preset: Option<Preset> },
    /// `preset` ranges over 0..=13.
    SvtAv1 { rate: Option<RateControl>, preset: Option<u8> },
    /// `cpu_used` ranges over 0..=8.
    AomAv1 { rate: Option<RateControl>, cpu_used: Option<u8> },
    /// `speed` ranges over 0..=10.
    Rav1e { rate: Option<RateControl>, speed: Option<u8> },
    Nvenc {
        codec: VideoCodec,
        rate: Option<RateControl>,
        preset: Option<NvencPreset>,
        multipass: Option<NvencMultipass>,
    },
    Qsv { codec: VideoCodec, rate: Option<RateControl>, preset: Option<QsvPreset> },
    Vaapi { codec: VideoCodec, rate: Option<RateControl>, device: String },
}

/// The FFmpeg encoder name.
pub open spec fn encoding_name(e: VideoEncoding) -> Seq<char> {
    match e {
        VideoEncoding::X264 { .. } => "libx264"@,
        VideoEncoding::X265 { .. } => "libx265"@,
        VideoEncoding::SvtAv1 { .. } => "libsvtav1"@,
        VideoEncoding::AomAv1 { .. } => "libaom-av1"@,
        VideoEncoding::Rav1e { .. } => "librav1e"@,
        VideoEncoding::Nvenc { codec, .. } => codec_text(codec) + "_nvenc"@,
        VideoEncoding::Qsv { codec, .. } => codec_text(codec) + "_qsv"@,
        VideoEncoding::Vaapi { codec, .. } => codec_text(codec) + "_vaapi"@,
    }
}

/// The human-readable encoder label.
pub open spec fn encoding_label(e: VideoEncoding) -> Seq<char> {
    match e {
        VideoEncoding::X264 { .. } => "x264"@,
        VideoEncoding::X265 { .. } => "x265"@,
        VideoEncoding::SvtAv1 { .. } => "SVT-AV1"@,
        VideoEncoding::AomAv1 { .. } => "AOM-AV1"@,
        VideoEncoding::Rav1e { .. } => "rav1e"@,
        VideoEncoding::Nvenc { codec, .. } => codec_label(codec) + " NVENC"@,
        VideoEncoding::Qsv { codec, .. } => codec_label(codec) + " QSV"@,
        VideoEncoding::Vaapi { codec, .. } => codec_label(codec) + " VAAPI"@,
    }
}

/// The rate control of an encoding.
pub open spec fn encoding_rate(e: VideoEncoding) -> Option<RateControl> {
    match e {
        VideoEncoding::X264 { rate, .. } => rate,
        VideoEncoding::X265 { rate, .. } => rate,
        VideoEncoding::SvtAv1 { rate, .. } => rate,
        VideoEncoding::AomAv1 { rate, .. } => rate,
        VideoEncoding::Rav1e { rate, .. } => rate,
        VideoEncoding::Nvenc { rate, .. } => rate,
        VideoEncoding::Qsv { rate, .. } => rate,
        VideoEncoding::Vaapi { rate, .. } => rate,
    }
}

/// `e` with its rate control replaced by `r` and every other field kept.
pub open spec fn with_rate(e: VideoEncoding, r: Option<RateControl>) -> VideoEncoding {
    match e {
        VideoEncoding::X264 { preset, .. } => VideoEncoding::X264 { rate: r, preset },
        VideoEncoding::X265 { preset, .. } => VideoEncoding::X265 { rate: r, preset },
        VideoEncoding::SvtAv1 { preset, .. } => VideoEncoding::SvtAv1 { rate: r, preset },
        VideoEncoding::AomAv1 { cpu_used, .. } => VideoEncoding::AomAv1 { rate: r, cpu_used },
        VideoEncoding::Rav1e { speed, .. } => VideoEncoding::Rav1e { rate: r, speed },
        VideoEncoding::Nvenc { codec, preset, multipass, .. } => VideoEncoding::Nvenc {
            codec,
            rate: r,
            preset,
            multipass,
        },
        VideoEncoding::Qsv { codec, preset, .. } => VideoEncoding::Qsv { codec, rate: r, preset },
        VideoEncoding::Vaapi { codec, device, .. } => VideoEncoding::Vaapi {
            codec,
            rate: r,
            device,
        },
    }
}

/// The inclusive range `(low, high)` of quality values the encoder accepts.
pub open spec fn quality_bounds_of(e: VideoEncoding) -> (u8, u8) {
    match e {
        VideoEncoding::X264 { .. } | VideoEncoding::X265 { .. } => (0, 51),
        VideoEncoding::SvtAv1 { .. } | VideoEncoding::AomAv1 { .. } => (0, 63),
        VideoEncoding::Rav1e { .. } => (0, 255),
        VideoEncoding::Nvenc { codec, .. } => match codec {
            VideoCodec::Av1 => (0, 63),
            _ => (0, 51),
        },
        VideoEncoding::Qsv { .. } => (1, 51),
        VideoEncoding::Vaapi { codec, .. } => match codec {
            VideoCodec::Av1 => (0, 255),
            _ => (0, 52),
        },
    }
}

/// The option that carries a constant-quality value for the encoder.
pub open spec fn quality_option_of(e: VideoEncoding) -> VideoOption {
    match e {
        VideoEncoding::Nvenc { .. } => VideoOption::Cq,
        VideoEncoding::Qsv { .. } => VideoOption::GlobalQuality,
        VideoEncoding::Vaapi { codec, .. } => match codec {
            VideoCodec::Av1 => VideoOption::GlobalQuality,
            _ => VideoOption::Qp,
        },
        VideoEncoding::Rav1e { .. } => VideoOption::Qp,
        _ => VideoOption::Crf,
    }
}

/// The name under which users see the quality option.
pub open spec fn quality_parameter_of(e: VideoEncoding) -> Seq<char> {
    match quality_option_of(e) {
        VideoOption::Cq => "CQ"@,
        VideoOption::Qp => "QP"@,
        VideoOption::GlobalQuality => "global_quality"@,
        _ => "CRF"@,
    }
}

/// The speed knob as text, as `VideoEncoding::preset` reports it.
pub open spec fn preset_of(e: VideoEncoding) -> Option<Seq<char>> {
    match e {
        VideoEncoding::X264 { preset, .. } | VideoEncoding::X265 { preset, .. } => match preset {
            Some(p) => Some(preset_text(p)),
            None => None,
        },
        VideoEncoding::Qsv { preset, .. } => match preset {
            Some(p) => Some(qsv_preset_text(p)),
            None => None,
        },
        VideoEncoding::Nvenc { preset, .. } => match preset {
            Some(p) => Some(nvenc_preset_text(p)),
            None => None,
        },
        VideoEncoding::SvtAv1 { preset, .. } => match preset {
            Some(v) => Some(decimal(v as nat)),
            None => None,
        },
        VideoEncoding::AomAv1 { cpu_used, .. } => match cpu_used {
            Some(v) => Some(decimal(v as nat)),
            None => None,
        },
        VideoEncoding::Rav1e { speed, .. } => match speed {
            Some(v) => Some(decimal(v as nat)),
            None => None,
        },
        VideoEncoding::Vaapi { .. } => None,
    }
}

/// The tokens `{option}:v {value}`.
pub open spec fn video_tokens(o: VideoOption, v: Seq<char>) -> Seq<Seq<char>> {
    seq![video_option_flag(o) + ":v"@, v]
}

/// Options an encoder needs before its constant-quality value.
pub open spec fn quality_prelude(e: VideoEncoding) -> Seq<Seq<char>> {
    match e {
        VideoEncoding::Nvenc { .. } => video_tokens(VideoOption::RateControl, "vbr"@) + video_tokens(
            VideoOption::Bitrate,
            "0"@,
        ),
        VideoEncoding::Vaapi { .. } => video_tokens(VideoOption::RateControlMode, "CQP"@),
        VideoEncoding::AomAv1 { .. } => video_tokens(VideoOption::Bitrate, "0"@),
        _ => seq![],
    }
}

/// The rate-control tokens of an encoding.
pub open spec fn rate_tokens(e: VideoEncoding) -> Seq<Seq<char>> {
    match encoding_rate(e) {
        Some(RateControl::Bitrate(b)) => video_tokens(VideoOption::Bitrate, decimal(b as nat)),
        Some(RateControl::Quality(q)) => quality_prelude(e) + video_tokens(
            quality_option_of(e),
            decimal(q as nat),
        ),
        None => seq![],
    }
}

/// Tokens for an optional knob.
pub open spec fn optional_tokens(o: VideoOption, v: Option<Seq<char>>) -> Seq<Seq<char>> {
    match v {
        Some(t) => video_tokens(o, t),
        None => seq![],
    }
}

/// The speed-knob tokens of an encoding.
pub open spec fn knob_tokens(e: VideoEncoding) -> Seq<Seq<char>> {
    match e {
        VideoEncoding::X264 { .. } | VideoEncoding::X265 { .. } | VideoEncoding::Qsv { .. }
        | VideoEncoding::SvtAv1 { .. } => optional_tokens(VideoOption::Preset, preset_of(e)),
        VideoEncoding::AomAv1 { .. } => optional_tokens(VideoOption::CpuUsed, preset_of(e)),
        VideoEncoding::Rav1e { .. } => optional_tokens(VideoOption::Speed, preset_of(e)),
        VideoEncoding::Nvenc { multipass, .. } => optional_tokens(
            VideoOption::Preset,
            preset_of(e),
        ) + optional_tokens(
            VideoOption::Multipass,
            match multipass {
                Some(m) => Some(multipass_text(m)),
                None => None,
            },
        ),
        VideoEncoding::Vaapi { .. } => seq![],
    }
}

/// Every encoder option of `e`, in the order FFmpeg receives them.
pub open spec fn encoding_options(e: VideoEncoding) -> Seq<Seq<char>> {
    rate_tokens(e) + knob_tokens(e)
}

/// Whether `e` has no rate control and no speed knobs set.
pub open spec fn is_fresh(e: VideoEncoding) -> bool {
    match e {
        VideoEncoding::X264 { rate, preset } => rate is None && preset is None,
        VideoEncoding::X265 { rate, preset } => rate is None && preset is None,
        VideoEncoding::SvtAv1 { rate, preset } => rate is None && preset is None,
        VideoEncoding::AomAv1 { rate, cpu_used } => rate is None && cpu_used is None,
        VideoEncoding::Rav1e { rate, speed } => rate is None && speed is None,
        VideoEncoding::Nvenc { rate, preset, multipass, .. } => rate is None && preset is None
            && multipass is None,
        VideoEncoding::Qsv { rate, preset, .. } => rate is None && preset is None,
        VideoEncoding::Vaapi { rate, .. } => rate is None,
    }
}

/// The encoder name in `NAME[=DEVICE]`.
pub open spec fn name_part(v: Seq<char>) -> Seq<char> {
    match split_once(v, '=') {
        Some((n, _)) => n,
        None => v,
    }
}

/// The device in `NAME[=DEVICE]`.
pub open spec fn device_part(v: Seq<char>) -> Option<Seq<char>> {
    match split_once(v, '=') {
        Some((_, d)) => Some(d),
        None => None,
    }
}

/// Whether `n` names one of the software encoders.
pub open spec fn is_software_encoder(n: Seq<char>) -> bool {
    n == "libx264"@ || n == "libx265"@ || n == "libsvtav1"@ || n == "libaom-av1"@ || n
        == "librav1e"@
}

/// Why `NAME[=DEVICE]` names no encoder, or `None` when it names one.
pub open spec fn encoder_parse_error(v: Seq<char>) -> Option<Seq<char>> {
    let name = name_part(v);
    let device = device_part(v);
    match split_once(name, '_') {
        Some((codec, backend)) => if codec_from_text(codec) is None {
            Some("unknown video codec "@ + codec)
        } else if backend == "vaapi"@ {
            None
        } else if backend == "nvenc"@ || backend == "qsv"@ {
            if device is None {
                None
            } else {
                Some(backend + " encoding does not accept a device"@)
            }
        } else {
            Some("unknown encoder "@ + name)
        },
        None => if device is Some {
            Some(name + " encoding does not accept a device"@)
        } else if is_software_encoder(name) {
            None
        } else {
            Some("unknown encoder "@ + name)
        },
    }
}

/// The VAAPI device that `NAME[=DEVICE]` selects: the given one, or the default when absent or empty.
pub open spec fn vaapi_device_of(v: Seq<char>) -> Seq<char> {
    match device_part(v) {
        Some(d) => if d.len() > 0 {
            d
        } else {
            "/dev/dri/renderD128"@
        },
        None => "/dev/dri/renderD128"@,
    }
}

/// Whether `e` is the encoder that `NAME[=DEVICE]` names, with no knobs set.
pub open spec fn parsed_encoding(v: Seq<char>, e: VideoEncoding) -> bool {
    &&& is_fresh(e)
    &&& encoding_name(e) == name_part(v)
    &&& (e matches VideoEncoding::Vaapi { device, .. } ==> device@ == vaapi_device_of(v))
}

/// Whether `a` and `b` are the same encoding, but for the VAAPI device.
pub open spec fn same_but_device(a: VideoEncoding, b: VideoEncoding) -> bool {
    match a {
        VideoEncoding::Vaapi { codec, rate, .. } => b matches VideoEncoding::Vaapi { codec: c, rate: q, .. }
            && c == codec && q == rate,
        _ => a == b,
    }
}

/// The text `NAME[=DEVICE]` names one encoding: two encodings parsed from it are equal.
pub proof fn lemma_parsed_encoding_unique(v: Seq<char>, a: VideoEncoding, b: VideoEncoding)
    requires
        parsed_encoding(v, a),
        parsed_encoding(v, b),
    ensures
        same_but_device(a, b),
{
    reveal_strlit("libx264");
    reveal_strlit("libx265");
    reveal_strlit("libsvtav1");
    reveal_strlit("libaom-av1");
    reveal_strlit("librav1e");
    reveal_strlit("h264");
    reveal_strlit("hevc");
    reveal_strlit("av1");
    reveal_strlit("_nvenc");
    reveal_strlit("_qsv");
    reveal_strlit("_vaapi");
    let n = encoding_name(a);
    let m = encoding_name(b);
    assert(n == m);
    assert(n.len() == m.len());
    assert(n[0] == m[0] && n[1] == m[1] && n[4] == m[4] && n[6] == m[6]);
    if n.len() > 7 {
        assert(n[5] == m[5]);
    }
    match a {
        VideoEncoding::Nvenc { codec, .. } => {
            assert(n =~= codec_text(codec) + "_nvenc"@);
        },
        VideoEncoding::Qsv { codec, .. } => {
            assert(n =~= codec_text(codec) + "_qsv"@);
        },
        VideoEncoding::Vaapi { codec, .. } => {
            assert(n =~= codec_text(codec) + "_vaapi"@);
        },
        _ => {},
    }
    match b {
        VideoEncoding::Nvenc { codec, .. } => {
            assert(m =~= codec_text(codec) + "_nvenc"@);
        },
        VideoEncoding::Qsv { codec, .. } => {
            assert(m =~= codec_text(codec) + "_qsv"@);
        },
        VideoEncoding::Vaapi { codec, .. } => {
            assert(m =~= codec_text(codec) + "_vaapi"@);
        },
        _ => {},
    }
}

/// The message Rust's `u8` parser reports for text that is not a `u8`.
pub open spec fn u8_parse_message(s: Seq<char>) -> Seq<char> {
    let d = unsigned_digits(s);
    if s.len() == 0 {
        "cannot parse integer from empty string"@
    } else if d.len() > 0 && all_digits(d) {
        "number too large to fit in target type"@
    } else {
        "invalid digit found in string"@
    }
}

/// How `try_set_preset` changes an encoding: the new encoding, or the refusal.
pub open spec fn preset_update(e: VideoEncoding, v: Seq<char>) -> Result<VideoEncoding, Seq<char>> {
    if v.len() == 0 {
        Ok(e)
    } else {
        match e {
            VideoEncoding::X264 { rate, .. } => match preset_from_text(v) {
                Some(p) => Ok(VideoEncoding::X264 { rate, preset: Some(p) }),
                None => Err("unknown x264/x265 preset "@ + v),
            },
            VideoEncoding::X265 { rate, .. } => match preset_from_text(v) {
                Some(p) => Ok(VideoEncoding::X265 { rate, preset: Some(p) }),
                None => Err("unknown x264/x265 preset "@ + v),
            },
            VideoEncoding::SvtAv1 { rate, .. } => match parse_unsigned(v, 255) {
                Some(n) => if n <= 13 {
                    Ok(VideoEncoding::SvtAv1 { rate, preset: Some(n as u8) })
                } else {
                    Err(v + " is not in 0..=13"@)
                },
                None => Err(u8_parse_message(v)),
            },
            VideoEncoding::AomAv1 { rate, .. } => match parse_unsigned(v, 255) {
                Some(n) => if n <= 8 {
                    Ok(VideoEncoding::AomAv1 { rate, cpu_used: Some(n as u8) })
                } else {
                    Err(v + " is not in 0..=8"@)
                },
                None => Err(u8_parse_message(v)),
            },
            VideoEncoding::Rav1e { rate, .. } => match parse_unsigned(v, 255) {
                Some(n) => if n <= 10 {
                    Ok(VideoEncoding::Rav1e { rate, speed: Some(n as u8) })
                } else {
                    Err(v + " is not in 0..=10"@)
                },
                None => Err(u8_parse_message(v)),
            },
            VideoEncoding::Nvenc { codec, rate, multipass, .. } => match nvenc_preset_from_text(v) {
                Some(p) => Ok(VideoEncoding::Nvenc { codec, rate, preset: Some(p), multipass }),
                None => Err("unknown NVENC preset "@ + v),
            },
            VideoEncoding::Qsv { codec, rate, .. } => match qsv_preset_from_text(v) {
                Some(p) => Ok(VideoEncoding::Qsv { codec, rate, preset: Some(p) }),
                None => Err("unknown QSV preset "@ + v),
            },
            VideoEncoding::Vaapi { .. } => Err("VAAPI does not support preset"@),
        }
    }
}

fn u8_error(v: &[char]) -> (m: String)
    requires
        parse_unsigned(v@, 255) is None,
    ensures
        m@ == u8_parse_message(v@),
{
    if v.len() == 0 {
        return String::from_str("cannot parse integer from empty string");
    }
    let digits = if v[0] == '+' {
        crate::text::sub_chars(v, 1, v.len())
    } else {
        crate::text::sub_chars(v, 0, v.len())
    };
    assert(digits@ =~= unsigned_digits(v@));
    let mut all = digits.len() > 0;
    let mut i: usize = 0;
    while i < digits.len()
        invariant
            i <= digits@.len(),
            all == (digits@.len() > 0 && forall|j: int|
                0 <= j < i ==> crate::text::is_digit(#[trigger] digits@[j])),
        decreases digits@.len() - i,
    {
        let c = digits[i];
        if !('0' <= c && c <= '9') {
            all = false;
        }
        i += 1;
    }
    if all {
        String::from_str("number too large to fit in target type")
    } else {
        String::from_str("invalid digit found in string")
    }
}

fn knob_text(v: u8) -> (s: String)
    ensures
        s@ == decimal(v as nat),
{
    decimal_string(v as u64)
}

impl VideoEncoding {
    /// The encoder FFmpeg uses when nothing else is chosen: x264 with no knobs set.
    pub fn default_encoding() -> (e: VideoEncoding)
        ensures
            e == (VideoEncoding::X264 { rate: None, preset: None }),
    {
        VideoEncoding::X264 { rate: None, preset: None }
    }

    /// Parses `NAME[=DEVICE]`, where `NAME` is an FFmpeg encoder name and only
    /// VAAPI encoders accept a device.
    pub fn from_str(value: &str) -> (r: Result<VideoEncoding, String>)
        ensures
            r matches Ok(e) ==> encoder_parse_error(value@) is None && parsed_encoding(value@, e),
            r matches Err(m) ==> encoder_parse_error(value@) == Some(m@),
    {
        let v = chars_of(value);
        let (name, device) = match split_once_chars(v.as_slice(), '=') {
            Some((n, d)) => (n, Some(d)),
            None => (v, None),
        };
        assert(name@ == name_part(value@));
        let name_text = crate::text::string_of(name.as_slice());
        match split_once_chars(name.as_slice(), '_') {
            Some((codec_chars, backend)) => {
                let codec_text_s = crate::text::string_of(codec_chars.as_slice());
                let codec = match VideoCodec::from_str(codec_text_s.as_str()) {
                    Ok(c) => c,
                    Err(m) => return Err(m),
                };
                assert(codec_text(codec) == codec_chars@);
                if chars_eq_str(backend.as_slice(), "vaapi") {
                    let dev = match device {
                        Some(d) => if d.len() > 0 {
                            crate::text::string_of(d.as_slice())
                        } else {
                            String::from_str("/dev/dri/renderD128")
                        },
                        None => String::from_str("/dev/dri/renderD128"),
                    };
                    proof {
                        lemma_split_once_join(name@, '_');
                        reveal_strlit("_vaapi");
                        reveal_strlit("vaapi");
                    }
                    assert(name@ =~= codec_chars@ + "_vaapi"@);
                    Ok(VideoEncoding::Vaapi { codec, rate: None, device: dev })
                } else if chars_eq_str(backend.as_slice(), "nvenc") {
                    if device.is_none() {
                        proof {
                        lemma_split_once_join(name@, '_');
                        reveal_strlit("_nvenc");
                        reveal_strlit("nvenc");
                    }
                    assert(name@ =~= codec_chars@ + "_nvenc"@);
                        Ok(VideoEncoding::Nvenc { codec, rate: None, preset: None, multipass: None })
                    } else {
                        Err(message(crate::text::string_of(backend.as_slice()).as_str(), " encoding does not accept a device"))
                    }
                } else if chars_eq_str(backend.as_slice(), "qsv") {
                    if device.is_none() {
                        proof {
                        lemma_split_once_join(name@, '_');
                        reveal_strlit("_qsv");
                        reveal_strlit("qsv");
                    }
                    assert(name@ =~= codec_chars@ + "_qsv"@);
                        Ok(VideoEncoding::Qsv { codec, rate: None, preset: None })
                    } else {
                        Err(message(crate::text::string_of(backend.as_slice()).as_str(), " encoding does not accept a device"))
                    }
                } else {
                    Err(message("unknown encoder ", name_text.as_str()))
                }
            },
            None => {
                if device.is_some() {
                    return Err(message(name_text.as_str(), " encoding does not accept a device"));
                }
                if chars_eq_str(name.as_slice(), "libx264") {
                    Ok(VideoEncoding::X264 { rate: None, preset: None })
                } else if chars_eq_str(name.as_slice(), "libx265") {
                    Ok(VideoEncoding::X265 { rate: None, preset: None })
                } else if chars_eq_str(name.as_slice(), "libsvtav1") {
                    Ok(VideoEncoding::SvtAv1 { rate: None, preset: None })
                } else if chars_eq_str(name.as_slice(), "libaom-av1") {
                    Ok(VideoEncoding::AomAv1 { rate: None, cpu_used: None })
                } else if chars_eq_str(name.as_slice(), "librav1e") {
                    Ok(VideoEncoding::Rav1e { rate: None, speed: None })
                } else {
                    Err(message("unknown encoder ", name_text.as_str()))
                }
            },
        }
    }

    /// The speed knob as text, if set.
    pub fn preset(&self) -> (r: Option<String>)
        ensures
            r matches Some(s) ==> preset_of(*self) == Some(s@),
            r is None ==> preset_of(*self) is None,
    {
        match self {
            VideoEncoding::X264 { preset, .. } | VideoEncoding::X265 { preset, .. } => match preset {
                Some(p) => Some(String::from_str(p.as_str())),
                None => None,
            },
            VideoEncoding::Qsv { preset, .. } => match preset {
                Some(p) => Some(String::from_str(p.as_str())),
                None => None,
            },
            VideoEncoding::Nvenc { preset, .. } => match preset {
                Some(p) => Some(String::from_str(p.as_str())),
                None => None,
            },
            VideoEncoding::SvtAv1 { preset, .. } => match preset {
                Some(v) => Some(knob_text(*v)),
                None => None,
            },
            VideoEncoding::AomAv1 { cpu_used, .. } => match cpu_used {
                Some(v) => Some(knob_text(*v)),
                None => None,
            },
            VideoEncoding::Rav1e { speed, .. } => match speed {
                Some(v) => Some(knob_text(*v)),
                None => None,
            },
            VideoEncoding::Vaapi { .. } => None,
        }
    }

    /// The NVENC multipass mode as text, if set.
    pub fn multipass(&self) -> (r: Option<&'static str>)
        ensures
            r matches Some(s) ==> (*self matches VideoEncoding::Nvenc { multipass, .. } && multipass
                matches Some(m) && s@ == multipass_text(m)),
            r is None ==> !(*self matches VideoEncoding::Nvenc { multipass, .. } && multipass
                is Some),
    {
        match self {
            VideoEncoding::Nvenc { multipass, .. } => match multipass {
                Some(m) => Some(m.as_str()),
                None => None,
            },
            _ => None,
        }
    }

    /// Sets the speed knob from its text; empty text leaves the encoding unchanged.
    /// The numeric knobs keep to their ranges: SVT-AV1 0..=13, AV1 `cpu-used` 0..=8,
    /// rav1e speed 0..=10; a value outside is refused and the encoding kept.
    pub fn try_set_preset(&mut self, value: &str) -> (r: Result<(), String>)
        ensures
            preset_update(*old(self), value@) matches Ok(e) ==> r is Ok && *final(self) == e,
            preset_update(*old(self), value@) matches Err(m) ==> r matches Err(x) && x@ == m
                && *final(self) == *old(self),
    {
        let v = chars_of(value);
        if v.len() == 0 {
            return Ok(());
        }
        match self {
            VideoEncoding::X264 { preset, .. } => match Preset::from_str(value) {
                Ok(p) => {
                    *preset = Some(p);
                    Ok(())
                },
                Err(m) => Err(m),
            },
            VideoEncoding::X265 { preset, .. } => match Preset::from_str(value) {
                Ok(p) => {
                    *preset = Some(p);
                    Ok(())
                },
                Err(m) => Err(m),
            },
            VideoEncoding::SvtAv1 { preset, .. } => match parse_u8_chars(v.as_slice()) {
                Some(n) => if n <= 13 {
                    *preset = Some(n);
                    Ok(())
                } else {
                    Err(String::from_str(value).concat(" is not in 0..=13"))
                },
                None => Err(u8_error(v.as_slice())),
            },
            VideoEncoding::AomAv1 { cpu_used, .. } => match parse_u8_chars(v.as_slice()) {
                Some(n) => if n <= 8 {
                    *cpu_used = Some(n);
                    Ok(())
                } else {
                    Err(String::from_str(value).concat(" is not in 0..=8"))
                },
                None => Err(u8_error(v.as_slice())),
            },
            VideoEncoding::Rav1e { speed, .. } => match parse_u8_chars(v.as_slice()) {
                Some(n) => if n <= 10 {
                    *speed = Some(n);
                    Ok(())
                } else {
                    Err(String::from_str(value).concat(" is not in 0..=10"))
                },
                None => Err(u8_error(v.as_slice())),
            },
            VideoEncoding::Nvenc { preset, .. } => match NvencPreset::from_str(value) {
                Ok(p) => {
                    *preset = Some(p);
                    Ok(())
                },
                Err(m) => Err(m),
            },
            VideoEncoding::Qsv { preset, .. } => match QsvPreset::from_str(value) {
                Ok(p) => {
                    *preset = Some(p);
                    Ok(())
                },
                Err(m) => Err(m),
            },
            VideoEncoding::Vaapi { .. } => Err(String::from_str("VAAPI does not support preset")),
        }
    }

    /// The FFmpeg encoder name.
    pub fn name(&self) -> (s: &'static str)
        ensures
            s@ == encoding_name(*self),
    {
        proof {
            reveal_strlit("libx264");
        }
        match self {
            VideoEncoding::X264 { .. } => "libx264",
            VideoEncoding::X265 { .. } => "libx265",
            VideoEncoding::SvtAv1 { .. } => "libsvtav1",
            VideoEncoding::AomAv1 { .. } => "libaom-av1",
            VideoEncoding::Rav1e { .. } => "librav1e",
            VideoEncoding::Nvenc { codec, .. } => match codec {
                VideoCodec::H264 => {
                    proof {
                        reveal_strlit("h264_nvenc");
                        reveal_strlit("h264");
                        reveal_strlit("_nvenc");
                    }
                    "h264_nvenc"
                },
                VideoCodec::Hevc => {
                    proof {
                        reveal_strlit("hevc_nvenc");
                        reveal_strlit("hevc");
                        reveal_strlit("_nvenc");
                    }
                    "hevc_nvenc"
                },
                VideoCodec::Av1 => {
                    proof {
                        reveal_strlit("av1_nvenc");
                        reveal_strlit("av1");
                        reveal_strlit("_nvenc");
                    }
                    "av1_nvenc"
                },
            },
            VideoEncoding::Qsv { codec, .. } => match codec {
                VideoCodec::H264 => {
                    proof {
                        reveal_strlit("h264_qsv");
                        reveal_strlit("h264");
                        reveal_strlit("_qsv");
                    }
                    "h264_qsv"
                },
                VideoCodec::Hevc => {
                    proof {
                        reveal_strlit("hevc_qsv");
                        reveal_strlit("hevc");
                        reveal_strlit("_qsv");
                    }
                    "hevc_qsv"
                },
                VideoCodec::Av1 => {
                    proof {
                        reveal_strlit("av1_qsv");
                        reveal_strlit("av1");
                        reveal_strlit("_qsv");
                    }
                    "av1_qsv"
                },
            },
            VideoEncoding::Vaapi { codec, .. } => match codec {
                VideoCodec::H264 => {
                    proof {
                        reveal_strlit("h264_vaapi");
                        reveal_strlit("h264");
                        reveal_strlit("_vaapi");
                    }
                    "h264_vaapi"
                },
                VideoCodec::Hevc => {
                    proof {
                        reveal_strlit("hevc_vaapi");
                        reveal_strlit("hevc");
                        reveal_strlit("_vaapi");
                    }
                    "hevc_vaapi"
                },
                VideoCodec::Av1 => {
                    proof {
                        reveal_strlit("av1_vaapi");
                        reveal_strlit("av1");
                        reveal_strlit("_vaapi");
                    }
                    "av1_vaapi"
                },
            },
        }
    }

    /// The human-readable encoder label, such as `SVT-AV1` or `HEVC NVENC`.
    pub fn label(&self) -> (s: String)
        ensures
            s@ == encoding_label(*self),
    {
        match self {
            VideoEncoding::X264 { .. } => String::from_str("x264"),
            VideoEncoding::X265 { .. } => String::from_str("x265"),
            VideoEncoding::SvtAv1 { .. } => String::from_str("SVT-AV1"),
            VideoEncoding::AomAv1 { .. } => String::from_str("AOM-AV1"),
            VideoEncoding::Rav1e { .. } => String::from_str("rav1e"),
            VideoEncoding::Nvenc { codec, .. } => message(codec.label(), " NVENC"),
            VideoEncoding::Qsv { codec, .. } => message(codec.label(), " QSV"),
            VideoEncoding::Vaapi { codec, .. } => message(codec.label(), " VAAPI"),
        }
    }

    /// The lowest and highest quality value the encoder accepts.
    pub fn quality_bounds(&self) -> (r: (u8, u8))
        ensures
            r == quality_bounds_of(*self),
    {
        match self {
            VideoEncoding::X264 { .. } | VideoEncoding::X265 { .. } => (0, 51),
            VideoEncoding::SvtAv1 { .. } | VideoEncoding::AomAv1 { .. } => (0, 63),
            VideoEncoding::Rav1e { .. } => (0, 255),
            VideoEncoding::Nvenc { codec, .. } => match codec {
                VideoCodec::Av1 => (0, 63),
                _ => (0, 51),
            },
            VideoEncoding::Qsv { .. } => (1, 51),
            VideoEncoding::Vaapi { codec, .. } => match codec {
                VideoCodec::Av1 => (0, 255),
                _ => (0, 52),
            },
        }
    }

    /// The inclusive range of quality values the encoder accepts.
    pub fn quality_range(&self) -> (r: core::ops::RangeInclusive<u8>)
        ensures
            r@.start == quality_bounds_of(*self).0,
            r@.end == quality_bounds_of(*self).1,
            !r@.exhausted,
    {
        let (low, high) = self.quality_bounds();
        core::ops::RangeInclusive::new(low, high)
    }

    /// The option that carries a constant-quality value.
    pub fn quality_option(&self) -> (o: VideoOption)
        ensures
            o == quality_option_of(*self),
    {
        match self {
            VideoEncoding::Nvenc { .. } => VideoOption::Cq,
            VideoEncoding::Qsv { .. } => VideoOption::GlobalQuality,
            VideoEncoding::Vaapi { codec, .. } => match codec {
                VideoCodec::Av1 => VideoOption::GlobalQuality,
                _ => VideoOption::Qp,
            },
            VideoEncoding::Rav1e { .. } => VideoOption::Qp,
            _ => VideoOption::Crf,
        }
    }

    /// The name under which users see the quality option: `CRF`, `CQ`, `QP` or `global_quality`.
    pub fn quality_parameter(&self) -> (s: &'static str)
        ensures
            s@ == quality_parameter_of(*self),
    {
        match self.quality_option() {
            VideoOption::Cq => "CQ",
            VideoOption::Qp => "QP",
            VideoOption::GlobalQuality => "global_quality",
            _ => "CRF",
        }
    }

    /// The rate control, if set.
    pub fn rate(&self) -> (r: Option<RateControl>)
        ensures
            r == encoding_rate(*self),
    {
        match self {
            VideoEncoding::X264 { rate, .. } => *rate,
            VideoEncoding::X265 { rate, .. } => *rate,
            VideoEncoding::SvtAv1 { rate, .. } => *rate,
            VideoEncoding::AomAv1 { rate, .. } => *rate,
            VideoEncoding::Rav1e { rate, .. } => *rate,
            VideoEncoding::Nvenc { rate, .. } => *rate,
            VideoEncoding::Qsv { rate, .. } => *rate,
            VideoEncoding::Vaapi { rate, .. } => *rate,
        }
    }

    /// Selects constant-quality rate control at `quality`.
    pub fn set_quality(&mut self, quality: u8)
        ensures
            *final(self) == with_rate(*old(self), Some(RateControl::Quality(quality))),
    {
        self.set_rate(Some(RateControl::Quality(quality)));
    }

    /// Replaces the rate control.
    pub fn set_rate(&mut self, value: Option<RateControl>)
        ensures
            *final(self) == with_rate(*old(self), value),
    {
        match self {
            VideoEncoding::X264 { rate, .. } => *rate = value,
            VideoEncoding::X265 { rate, .. } => *rate = value,
            VideoEncoding::SvtAv1 { rate, .. } => *rate = value,
            VideoEncoding::AomAv1 { rate, .. } => *rate = value,
            VideoEncoding::Rav1e { rate, .. } => *rate = value,
            VideoEncoding::Nvenc { rate, .. } => *rate = value,
            VideoEncoding::Qsv { rate, .. } => *rate = value,
            VideoEncoding::Vaapi { rate, .. } => *rate = value,
        }
    }

    /// Appends the encoder options of this encoding to `args`.
    pub fn append_options(&self, args: &mut Vec<String>)
        ensures
            string_views(final(args)@) == string_views(old(args)@) + encoding_options(*self),
    {
        let ghost start = string_views(args@);
        match self.rate() {
            Some(RateControl::Bitrate(b)) => {
                add_arg(args, Arg::Video(VideoOption::Bitrate, decimal_string(b)));
            },
            Some(RateControl::Quality(q)) => {
                match self {
                    VideoEncoding::Nvenc { .. } => {
                        add_arg(args, Arg::Video(VideoOption::RateControl, String::from_str("vbr")));
                        add_arg(args, Arg::Video(VideoOption::Bitrate, String::from_str("0")));
                    },
                    VideoEncoding::Vaapi { .. } => {
                        add_arg(
                            args,
                            Arg::Video(VideoOption::RateControlMode, String::from_str("CQP")),
                        );
                    },
                    VideoEncoding::AomAv1 { .. } => {
                        add_arg(args, Arg::Video(VideoOption::Bitrate, String::from_str("0")));
                    },
                    _ => {},
                }
                assert(string_views(args@) =~= start + quality_prelude(*self));
                add_arg(args, Arg::Video(self.quality_option(), knob_text(q)));
            },
            None => {},
        }
        assert(string_views(args@) =~= start + rate_tokens(*self));
        let ghost mid = string_views(args@);
        match self {
            VideoEncoding::X264 { preset, .. } | VideoEncoding::X265 { preset, .. } => {
                if let Some(p) = preset {
                    add_arg(args, Arg::Video(VideoOption::Preset, String::from_str(p.as_str())));
                }
            },
            VideoEncoding::Qsv { preset, .. } => {
                if let Some(p) = preset {
                    add_arg(args, Arg::Video(VideoOption::Preset, String::from_str(p.as_str())));
                }
            },
            VideoEncoding::SvtAv1 { preset, .. } => {
                if let Some(p) = preset {
                    add_arg(args, Arg::Video(VideoOption::Preset, knob_text(*p)));
                }
            },
            VideoEncoding::AomAv1 { cpu_used, .. } => {
                if let Some(v) = cpu_used {
                    add_arg(args, Arg::Video(VideoOption::CpuUsed, knob_text(*v)));
                }
            },
            VideoEncoding::Rav1e { speed, .. } => {
                if let Some(v) = speed {
                    add_arg(args, Arg::Video(VideoOption::Speed, knob_text(*v)));
                }
            },
            VideoEncoding::Nvenc { preset, multipass, .. } => {
                if let Some(p) = preset {
                    add_arg(args, Arg::Video(VideoOption::Preset, String::from_str(p.as_str())));
                }
                assert(string_views(args@) =~= mid + optional_tokens(
                    VideoOption::Preset,
                    preset_of(*self),
                ));
                if let Some(m) = multipass {
                    add_arg(args, Arg::Video(VideoOption::Multipass, String::from_str(m.as_str())));
                }
            },
            VideoEncoding::Vaapi { .. } => {},
        }
        assert(string_views(args@) =~= mid + knob_tokens(*self));
        assert(string_views(args@) =~= start + encoding_options(*self));
    }
}

} // verus!
