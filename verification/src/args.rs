//! FFmpeg command-line arguments and the tokens each one contributes.
use vstd::prelude::*;
use vstd::string::*;
use crate::text::{decimal, decimal_string};

verus! {

/// The views of a sequence of strings.
pub open spec fn string_views(v: Seq<String>) -> Seq<Seq<char>> {
    v.map_values(|x: String| x@)
}

/// A per-stream video encoder option, written `{flag}:v {value}`.
#[derive(Debug, Clone, Copy, PartialEq, Eq, Structural)]
pub enum VideoOption {
    Bitrate,
    Crf,
    Cq,
    Qp,
    GlobalQuality,
    RateControl,
    RateControlMode,
    Preset,
    CpuUsed,
    Speed,
    Multipass,
}

pub open spec fn video_option_flag(o: VideoOption) -> Seq<char> {
    match o {
        VideoOption::Bitrate => "-b"@,
        VideoOption::Crf => "-crf"@,
        VideoOption::Cq => "-cq"@,
        VideoOption::Qp => "-qp"@,
        VideoOption::GlobalQuality => "-global_quality"@,
        VideoOption::RateControl => "-rc"@,
        VideoOption::RateControlMode => "-rc_mode"@,
        VideoOption::Preset => "-preset"@,
        VideoOption::CpuUsed => "-cpu-used"@,
        VideoOption::Speed => "-speed"@,
        VideoOption::Multipass => "-multipass"@,
    }
}

impl VideoOption {
    /// The FFmpeg flag of this option.
    pub fn flag(self) -> (s: &'static str)
        ensures
            s@ == video_option_flag(self),
    {
        match self {
            VideoOption::Bitrate => "-b",
            VideoOption::Crf => "-crf",
            VideoOption::Cq => "-cq",
            VideoOption::Qp => "-qp",
            VideoOption::GlobalQuality => "-global_quality",
            VideoOption::RateControl => "-rc",
            VideoOption::RateControlMode => "-rc_mode",
            VideoOption::Preset => "-preset",
            VideoOption::CpuUsed => "-cpu-used",
            VideoOption::Speed => "-speed",
            VideoOption::Multipass => "-multipass",
        }
    }
}

/// One FFmpeg argument, which expands to one or two command-line tokens.
pub enum Arg {
    /// -hide_banner
    HideBanner,
    /// -nostdin
    NoStdin,
    /// -nostats
    NoStats,
    /// -progress pipe:1
    ProgressStdout,
    /// -v {level}
    LogLevel(String),
    /// -h encoder={encoder}
    EncoderHelp(String),
    /// -y / -n
    Overwrite(bool),
    /// -i {path}
    Input(String),
    /// -ss {time}
    Seek(String),
    /// -t {duration}
    Duration(String),
    /// -hwaccel:{stream} {method}
    Hwaccel(usize, String),
    /// -hwaccel_device:{stream} {device}
    HwaccelDevice(usize, String),
    /// -hwaccel_output_format:{stream} {format}
    HwaccelOutputFormat(usize, String),
    /// {path}
    Output(String),
    /// -vaapi_device {path}
    VaapiDevice(String),
    /// -map 0:{index}
    MapStream(usize),
    /// -map {label}
    MapLabel(String),
    /// -map_metadata 0
    MapMetadata,
    /// -map_chapters 0
    MapChapters,
    /// -c copy
    CopyAll,
    /// -c:v {name}
    VideoCodec(String),
    /// -c:{output_index} copy
    CopyStream(usize),
    /// {option}:v {value}
    Video(VideoOption, String),
    /// -pix_fmt:{output_index} +{format}
    PixelFormat(usize, String),
    /// -filter:{output_index} {graph}
    Filter(usize, String),
    /// -filter_complex {graph}
    FilterComplex(String),
    /// -max_interleave_delta {value}
    MaxInterleaveDelta(u64),
    /// -mpegts_m2ts_mode 1
    M2tsMode,
    /// -dump_attachment:{input_index} {path}
    DumpAttachment(usize, String),
    /// -attach {path}
    Attach(String),
    /// -metadata:s:{output_index} {key}={value}
    StreamMetadata(usize, String, String),
    /// -frames:v 1
    OneVideoFrame,
    /// -f {format}
    Format(String),
    /// - (standard output)
    Stdout,
    /// pipe:1
    ImageStdout,
}

/// `{prefix}{n}`.
pub open spec fn indexed(prefix: Seq<char>, n: nat) -> Seq<char> {
    prefix + decimal(n)
}

/// The tokens that `a` contributes to a command line.
pub open spec fn arg_tokens(a: Arg) -> Seq<Seq<char>> {
    match a {
        Arg::HideBanner => seq!["-hide_banner"@],
        Arg::NoStdin => seq!["-nostdin"@],
        Arg::NoStats => seq!["-nostats"@],
        Arg::ProgressStdout => seq!["-progress"@, "pipe:1"@],
        Arg::LogLevel(l) => seq!["-v"@, l@],
        Arg::EncoderHelp(e) => seq!["-h"@, "encoder="@ + e@],
        Arg::Overwrite(o) => if o {
            seq!["-y"@]
        } else {
            seq!["-n"@]
        },
        Arg::Input(p) => seq!["-i"@, p@],
        Arg::Seek(t) => seq!["-ss"@, t@],
        Arg::Duration(t) => seq!["-t"@, t@],
        Arg::Hwaccel(i, m) => seq![indexed("-hwaccel:"@, i as nat), m@],
        Arg::HwaccelDevice(i, d) => seq![indexed("-hwaccel_device:"@, i as nat), d@],
        Arg::HwaccelOutputFormat(i, f) => seq![indexed("-hwaccel_output_format:"@, i as nat), f@],
        Arg::Output(p) => seq![p@],
        Arg::VaapiDevice(p) => seq!["-vaapi_device"@, p@],
        Arg::MapStream(i) => seq!["-map"@, indexed("0:"@, i as nat)],
        Arg::MapLabel(l) => seq!["-map"@, l@],
        Arg::MapMetadata => seq!["-map_metadata"@, "0"@],
        Arg::MapChapters => seq!["-map_chapters"@, "0"@],
        Arg::CopyAll => seq!["-c"@, "copy"@],
        Arg::VideoCodec(n) => seq!["-c:v"@, n@],
        Arg::CopyStream(i) => seq![indexed("-c:"@, i as nat), "copy"@],
        Arg::Video(o, v) => seq![video_option_flag(o) + ":v"@, v@],
        Arg::PixelFormat(i, f) => seq![indexed("-pix_fmt:"@, i as nat), "+"@ + f@],
        Arg::Filter(i, g) => seq![indexed("-filter:"@, i as nat), g@],
        Arg::FilterComplex(g) => seq!["-filter_complex"@, g@],
        Arg::MaxInterleaveDelta(v) => seq!["-max_interleave_delta"@, decimal(v as nat)],
        Arg::M2tsMode => seq!["-mpegts_m2ts_mode"@, "1"@],
        Arg::DumpAttachment(i, p) => seq![indexed("-dump_attachment:"@, i as nat), p@],
        Arg::Attach(p) => seq!["-attach"@, p@],
        Arg::StreamMetadata(i, k, v) => seq![indexed("-metadata:s:"@, i as nat), k@ + "="@ + v@],
        Arg::OneVideoFrame => seq!["-frames:v"@, "1"@],
        Arg::Format(f) => seq!["-f"@, f@],
        Arg::Stdout => seq!["-"@],
        Arg::ImageStdout => seq!["pipe:1"@],
    }
}

/// `{prefix}{n}` as a string.
pub fn indexed_string(prefix: &str, n: usize) -> (s: String)
    ensures
        s@ == indexed(prefix@, n as nat),
{
    let d = decimal_string(n as u64);
    let s = String::from_str(prefix);
    s.concat(d.as_str())
}

fn text(s: &str) -> (r: String)
    ensures
        r@ == s@,
{
    String::from_str(s)
}

fn joined(a: &str, b: &str) -> (r: String)
    ensures
        r@ == a@ + b@,
{
    String::from_str(a).concat(b)
}

fn push1(args: &mut Vec<String>, a: String)
    ensures
        string_views(final(args)@) == string_views(old(args)@) + seq![a@],
{
    args.push(a);
    assert(string_views(final(args)@) =~= string_views(old(args)@) + seq![a@]);
}

fn push2(args: &mut Vec<String>, a: String, b: String)
    ensures
        string_views(final(args)@) == string_views(old(args)@) + seq![a@, b@],
{
    let ghost start = string_views(args@);
    push1(args, a);
    push1(args, b);
    assert(string_views(args@) =~= start + seq![a@, b@]);
}

/// Appends the tokens of `a` to `args`.
pub fn add_arg(args: &mut Vec<String>, a: Arg)
    ensures
        string_views(final(args)@) == string_views(old(args)@) + arg_tokens(a),
{
    match a {
        Arg::HideBanner => push1(args, text("-hide_banner")),
        Arg::NoStdin => push1(args, text("-nostdin")),
        Arg::NoStats => push1(args, text("-nostats")),
        Arg::ProgressStdout => push2(args, text("-progress"), text("pipe:1")),
        Arg::LogLevel(l) => push2(args, text("-v"), l),
        Arg::EncoderHelp(e) => push2(args, text("-h"), joined("encoder=", e.as_str())),
        Arg::Overwrite(o) => if o {
            push1(args, text("-y"))
        } else {
            push1(args, text("-n"))
        },
        Arg::Input(p) => push2(args, text("-i"), p),
        Arg::Seek(t) => push2(args, text("-ss"), t),
        Arg::Duration(t) => push2(args, text("-t"), t),
        Arg::Hwaccel(i, m) => push2(args, indexed_string("-hwaccel:", i), m),
        Arg::HwaccelDevice(i, d) => push2(args, indexed_string("-hwaccel_device:", i), d),
        Arg::HwaccelOutputFormat(i, f) => push2(
            args,
            indexed_string("-hwaccel_output_format:", i),
            f,
        ),
        Arg::Output(p) => push1(args, p),
        Arg::VaapiDevice(p) => push2(args, text("-vaapi_device"), p),
        Arg::MapStream(i) => push2(args, text("-map"), indexed_string("0:", i)),
        Arg::MapLabel(l) => push2(args, text("-map"), l),
        Arg::MapMetadata => push2(args, text("-map_metadata"), text("0")),
        Arg::MapChapters => push2(args, text("-map_chapters"), text("0")),
        Arg::CopyAll => push2(args, text("-c"), text("copy")),
        Arg::VideoCodec(n) => push2(args, text("-c:v"), n),
        Arg::CopyStream(i) => push2(args, indexed_string("-c:", i), text("copy")),
        Arg::Video(o, v) => push2(args, joined(o.flag(), ":v"), v),
        Arg::PixelFormat(i, f) => push2(
            args,
            indexed_string("-pix_fmt:", i),
            joined("+", f.as_str()),
        ),
        Arg::Filter(i, g) => push2(args, indexed_string("-filter:", i), g),
        Arg::FilterComplex(g) => push2(args, text("-filter_complex"), g),
        Arg::MaxInterleaveDelta(v) => push2(args, text("-max_interleave_delta"), decimal_string(v)),
        Arg::M2tsMode => push2(args, text("-mpegts_m2ts_mode"), text("1")),
        Arg::DumpAttachment(i, p) => push2(args, indexed_string("-dump_attachment:", i), p),
        Arg::Attach(p) => push2(args, text("-attach"), p),
        Arg::StreamMetadata(i, k, v) => {
            let pair = String::from_str(k.as_str()).concat("=").concat(v.as_str());
            push2(args, indexed_string("-metadata:s:", i), pair)
        },
        Arg::OneVideoFrame => push2(args, text("-frames:v"), text("1")),
        Arg::Format(f) => push2(args, text("-f"), f),
        Arg::Stdout => push1(args, text("-")),
        Arg::ImageStdout => push1(args, text("pipe:1")),
    }
}

} // verus!
