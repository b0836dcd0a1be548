//! The command lines of the FFmpeg and ffprobe invocations.
use vstd::prelude::*;
use vstd::string::*;
use crate::args::{add_arg, indexed, indexed_string, string_views, Arg};
use crate::plan::{AttachmentInput, PlannedAttachment, TranscodePlan};
use crate::text::{decimal, decimal_string, split_once, str_eq, trim};

verus! {

/// `name` inside the folder `dir`, as `Path::join` writes it.
pub open spec fn joined_path(dir: Seq<char>, name: Seq<char>) -> Seq<char> {
    if dir.len() == 0 {
        name
    } else if dir.last() == '/' {
        dir + name
    } else {
        dir + "/"@ + name
    }
}

/// Joins `name` to the folder `dir`.
pub fn join_path(dir: &str, name: &str) -> (r: String)
    ensures
        r@ == joined_path(dir@, name@),
{
    let chars = crate::text::chars_of(dir);
    if chars.len() == 0 {
        String::from_str(name)
    } else if chars[chars.len() - 1] == '/' {
        String::from_str(dir).concat(name)
    } else {
        String::from_str(dir).concat("/").concat(name)
    }
}

/// Where attachment `i` of a plan is written inside `dir`.
pub open spec fn attachment_path(dir: Seq<char>, i: usize) -> Seq<char> {
    joined_path(dir, "attachment-"@ + decimal(i as nat))
}

/// The options that dump native attachments before the input, for the attachments `atts`.
pub open spec fn dump_args(dir: Seq<char>, atts: Seq<PlannedAttachment>) -> Seq<Seq<char>>
    decreases atts.len(),
{
    if atts.len() == 0 {
        seq![]
    } else {
        let a = atts.last();
        dump_args(dir, atts.drop_last()) + if a.input == AttachmentInput::AttachmentStream {
            seq![indexed("-dump_attachment:"@, a.input_index as nat), attachment_path(dir, a.input_index)]
        } else {
            seq![]
        }
    }
}

/// The `-metadata:s:N KEY=VALUE` options of one attachment's tags.
pub open spec fn metadata_args(output_index: usize, tags: Seq<(Seq<char>, Seq<char>)>) -> Seq<Seq<char>>
    decreases tags.len(),
{
    if tags.len() == 0 {
        seq![]
    } else {
        metadata_args(output_index, tags.drop_last()) + seq![
            indexed("-metadata:s:"@, output_index as nat),
            tags.last().0 + "="@ + tags.last().1,
        ]
    }
}

/// The options that attach every planned attachment with its tags.
pub open spec fn attach_args(dir: Seq<char>, atts: Seq<PlannedAttachment>) -> Seq<Seq<char>>
    decreases atts.len(),
{
    if atts.len() == 0 {
        seq![]
    } else {
        let a = atts.last();
        attach_args(dir, atts.drop_last()) + seq!["-attach"@, attachment_path(dir, a.input_index)]
            + metadata_args(a.output_index, a.metadata.view_pairs())
    }
}

/// The cover frames to extract before the transcode: input stream and file.
pub open spec fn cover_jobs(dir: Seq<char>, atts: Seq<PlannedAttachment>) -> Seq<(usize, Seq<char>)>
    decreases atts.len(),
{
    if atts.len() == 0 {
        seq![]
    } else {
        let a = atts.last();
        cover_jobs(dir, atts.drop_last()) + if a.input == AttachmentInput::CoverFrame {
            seq![(a.input_index, attachment_path(dir, a.input_index))]
        } else {
            seq![]
        }
    }
}

/// The options every FFmpeg transcode starts with.
pub open spec fn transcode_prefix() -> Seq<Seq<char>> {
    seq!["-hide_banner"@, "-nostdin"@, "-nostats"@, "-progress"@, "pipe:1"@]
}

/// The full transcode command line of `p`, with attachments kept in `dir`.
pub open spec fn transcode_args(p: TranscodePlan, dir: Seq<char>) -> Seq<Seq<char>> {
    transcode_prefix() + dump_args(dir, p.attachments@) + string_views(p.args@) + attach_args(
        dir,
        p.attachments@,
    ) + seq![p.output@]
}

/// One cover frame to extract: the input stream and the file it goes to.
#[derive(Debug)]
pub struct CoverJob {
    pub stream_index: usize,
    pub path: String,
}

/// A transcode command line and the cover frames to extract first.
#[derive(Debug)]
pub struct TranscodeCommand {
    pub args: Vec<String>,
    pub covers: Vec<CoverJob>,
}

/// The cover jobs as plain values.
pub open spec fn job_views(v: Seq<CoverJob>) -> Seq<(usize, Seq<char>)> {
    v.map_values(|j: CoverJob| (j.stream_index, j.path@))
}

fn push_all(args: &mut Vec<String>, more: Vec<String>)
    ensures
        string_views(final(args)@) == string_views(old(args)@) + string_views(more@),
{
    let mut m = more;
    let ghost a = string_views(args@);
    let ghost b = string_views(m@);
    args.append(&mut m);
    assert(string_views(args@) =~= a + b);
}

/// The tag options of one attachment.
fn metadata_options(output_index: usize, tags: &crate::media::Tags) -> (r: Vec<String>)
    ensures
        string_views(r@) == metadata_args(output_index, tags.view_pairs()),
{
    let mut r: Vec<String> = Vec::new();
    let ghost t = tags.view_pairs();
    let mut i: usize = 0;
    assert(t.take(0) =~= seq![]);
    assert(string_views(r@) =~= seq![]);
    while i < tags.entries.len()
        invariant
            t == tags.view_pairs(),
            i <= t.len(),
            string_views(r@) == metadata_args(output_index, t.take(i as int)),
        decreases t.len() - i,
    {
        proof {
            assert(t.take(i + 1).drop_last() =~= t.take(i as int));
            assert(t.take(i + 1).last() == t[i as int]);
        }
        let (k, v) = (&tags.entries[i].0, &tags.entries[i].1);
        add_arg(
            &mut r,
            Arg::StreamMetadata(output_index, k.clone(), v.clone()),
        );
        i += 1;
    }
    assert(t.take(t.len() as int) =~= t);
    r
}

/// The FFmpeg command line of a transcode plan, keeping attachment files in
/// `attachment_dir`, and the cover frames to extract before it runs.
pub fn transcode_command(plan: &TranscodePlan, attachment_dir: &str) -> (c: TranscodeCommand)
    ensures
        string_views(c.args@) == transcode_args(*plan, attachment_dir@),
        job_views(c.covers@) == cover_jobs(attachment_dir@, plan.attachments@),
{
    let ghost dir = attachment_dir@;
    let ghost atts = plan.attachments@;
    let mut args: Vec<String> = Vec::new();
    assert(string_views(args@) =~= seq![]);
    add_arg(&mut args, Arg::HideBanner);
    add_arg(&mut args, Arg::NoStdin);
    add_arg(&mut args, Arg::NoStats);
    add_arg(&mut args, Arg::ProgressStdout);
    assert(string_views(args@) =~= transcode_prefix());
    let mut covers: Vec<CoverJob> = Vec::new();
    let mut paths: Vec<String> = Vec::new();
    let mut i: usize = 0;
    assert(atts.take(0) =~= seq![]);
    assert(job_views(covers@) =~= seq![]);
    while i < plan.attachments.len()
        invariant
            atts == plan.attachments@,
            dir == attachment_dir@,
            i <= atts.len(),
            paths@.len() == i,
            forall|j: int| 0 <= j < i ==> (#[trigger] paths@[j])@ == attachment_path(dir, atts[j].input_index),
            string_views(args@) == transcode_prefix() + dump_args(dir, atts.take(i as int)),
            job_views(covers@) == cover_jobs(dir, atts.take(i as int)),
        decreases atts.len() - i,
    {
        let a = &plan.attachments[i];
        proof {
            assert(atts.take(i + 1).drop_last() =~= atts.take(i as int));
            assert(atts.take(i + 1).last() == *a);
        }
        let name = indexed_string("attachment-", a.input_index);
        let path = join_path(attachment_dir, name.as_str());
        let ghost before_args = string_views(args@);
        let ghost before_jobs = job_views(covers@);
        match a.input {
            AttachmentInput::AttachmentStream => {
                add_arg(&mut args, Arg::DumpAttachment(a.input_index, path.clone()));
                assert(before_jobs + seq![] =~= before_jobs);
            },
            AttachmentInput::CoverFrame => {
                covers.push(CoverJob { stream_index: a.input_index, path: path.clone() });
                assert(job_views(covers@) =~= before_jobs + seq![(a.input_index, path@)]);
                assert(before_args + seq![] =~= before_args);
            },
        }
        assert(string_views(args@) =~= transcode_prefix() + dump_args(dir, atts.take(i + 1)));
        paths.push(path);
        i += 1;
    }
    assert(atts.take(atts.len() as int) =~= atts);
    let plan_args = crate::plan::copy_strings(&plan.args);
    push_all(&mut args, plan_args);
    let ghost head = string_views(args@);
    let mut k: usize = 0;
    assert(atts.take(0) =~= seq![]);
    assert(head + attach_args(dir, atts.take(0)) =~= head);
    while k < plan.attachments.len()
        invariant
            atts == plan.attachments@,
            dir == attachment_dir@,
            k <= atts.len(),
            paths@.len() == atts.len(),
            forall|j: int| 0 <= j < atts.len() ==> (#[trigger] paths@[j])@ == attachment_path(dir, atts[j].input_index),
            string_views(args@) == head + attach_args(dir, atts.take(k as int)),
        decreases atts.len() - k,
    {
        let a = &plan.attachments[k];
        proof {
            assert(atts.take(k + 1).drop_last() =~= atts.take(k as int));
            assert(atts.take(k + 1).last() == *a);
        }
        add_arg(&mut args, Arg::Attach(paths[k].clone()));
        let meta = metadata_options(a.output_index, &a.metadata);
        push_all(&mut args, meta);
        assert(string_views(args@) =~= head + attach_args(dir, atts.take(k + 1)));
        k += 1;
    }
    assert(atts.take(atts.len() as int) =~= atts);
    add_arg(&mut args, Arg::Output(plan.output.clone()));
    TranscodeCommand { args, covers }
}

/// The command line that writes one cover frame of `input` to standard output.
pub open spec fn cover_extraction_args(input: Seq<char>, stream_index: usize) -> Seq<Seq<char>> {
    seq![
        "-hide_banner"@,
        "-nostdin"@,
        "-nostats"@,
        "-i"@,
        input,
        "-map"@,
        indexed("0:"@, stream_index as nat),
        "-c"@,
        "copy"@,
        "-frames:v"@,
        "1"@,
        "-f"@,
        "image2pipe"@,
        "pipe:1"@,
    ]
}

/// The command line that writes one cover frame of `input` to standard output.
pub fn cover_extraction(input: &str, stream_index: usize) -> (r: Vec<String>)
    ensures
        string_views(r@) == cover_extraction_args(input@, stream_index),
{
    let mut r: Vec<String> = Vec::new();
    assert(string_views(r@) =~= seq![]);
    add_arg(&mut r, Arg::HideBanner);
    add_arg(&mut r, Arg::NoStdin);
    add_arg(&mut r, Arg::NoStats);
    add_arg(&mut r, Arg::Input(String::from_str(input)));
    add_arg(&mut r, Arg::MapStream(stream_index));
    add_arg(&mut r, Arg::CopyAll);
    add_arg(&mut r, Arg::OneVideoFrame);
    add_arg(&mut r, Arg::Format(String::from_str("image2pipe")));
    add_arg(&mut r, Arg::ImageStdout);
    assert(string_views(r@) =~= cover_extraction_args(input@, stream_index));
    r
}

/// The command line that prints the help of one encoder.
pub fn encoder_help(encoder: &str) -> (r: Vec<String>)
    ensures
        string_views(r@) == seq!["-hide_banner"@, "-h"@, "encoder="@ + encoder@],
{
    let mut r: Vec<String> = Vec::new();
    assert(string_views(r@) =~= seq![]);
    add_arg(&mut r, Arg::HideBanner);
    add_arg(&mut r, Arg::EncoderHelp(String::from_str(encoder)));
    assert(string_views(r@) =~= seq!["-hide_banner"@, "-h"@, "encoder="@ + encoder@]);
    r
}

/// The command line that decodes one second after seeking to `timestamp`, hashing
/// the frames of a video and an audio stream.
pub open spec fn seek_decode_args(input: Seq<char>, video: usize, audio: usize, timestamp: Seq<char>) -> Seq<
    Seq<char>,
> {
    seq![
        "-hide_banner"@,
        "-nostdin"@,
        "-v"@,
        "error"@,
        "-ss"@,
        timestamp,
        "-i"@,
        input,
        "-map"@,
        indexed("0:"@, video as nat),
        "-map"@,
        indexed("0:"@, audio as nat),
        indexed("-c:"@, 0),
        "copy"@,
        "-t"@,
        "1"@,
        "-f"@,
        "framehash"@,
        "-"@,
    ]
}

/// The command line that decodes one second after a seek.
pub fn seek_decode(input: &str, video: usize, audio: usize, timestamp: &str) -> (r: Vec<String>)
    ensures
        string_views(r@) == seek_decode_args(input@, video, audio, timestamp@),
{
    let mut r: Vec<String> = Vec::new();
    assert(string_views(r@) =~= seq![]);
    add_arg(&mut r, Arg::HideBanner);
    add_arg(&mut r, Arg::NoStdin);
    add_arg(&mut r, Arg::LogLevel(String::from_str("error")));
    add_arg(&mut r, Arg::Seek(String::from_str(timestamp)));
    add_arg(&mut r, Arg::Input(String::from_str(input)));
    add_arg(&mut r, Arg::MapStream(video));
    add_arg(&mut r, Arg::MapStream(audio));
    add_arg(&mut r, Arg::CopyStream(0));
    add_arg(&mut r, Arg::Duration(String::from_str("1")));
    add_arg(&mut r, Arg::Format(String::from_str("framehash")));
    add_arg(&mut r, Arg::Stdout);
    assert(string_views(r@) =~= seek_decode_args(input@, video, audio, timestamp@));
    r
}

/// Whether a framehash line belongs to the second mapped stream, the audio.
pub open spec fn is_audio_frame_line(line: Seq<char>) -> bool {
    match split_once(line, ',') {
        Some((stream, _)) => trim(stream) == "1"@,
        None => false,
    }
}

/// Whether a framehash line belongs to the audio stream.
pub fn audio_frame_line(line: &str) -> (r: bool)
    ensures
        r == is_audio_frame_line(line@),
{
    let chars = crate::text::chars_of(line);
    match crate::text::split_once_chars(chars.as_slice(), ',') {
        Some((stream, _)) => {
            let t = crate::text::trim_chars(stream.as_slice());
            crate::text::chars_eq_str(t.as_slice(), "1")
        },
        None => false,
    }
}

/// One ffprobe option.
pub enum ProbeArg {
    /// -v error
    ErrorsOnly,
    /// -of json
    Json,
    /// -show_error
    ShowError,
    /// -show_format
    ShowFormat,
    /// -show_streams
    ShowStreams,
    /// -show_chapters
    ShowChapters,
    /// -show_programs
    ShowPrograms,
    /// -show_frames
    ShowFrames,
    /// -show_packets
    ShowPackets,
    /// -show_pixel_formats
    ShowPixelFormats,
    /// -show_data_hash sha256
    DataHash,
    /// -select_streams {index}
    SelectStream(usize),
    /// -read_intervals {intervals}
    ReadIntervals(String),
    /// -show_entries {entries}
    ShowEntries(String),
    /// -- {path}
    Input(String),
}

/// The tokens an ffprobe option contributes.
pub open spec fn probe_tokens(a: ProbeArg) -> Seq<Seq<char>> {
    match a {
        ProbeArg::ErrorsOnly => seq!["-v"@, "error"@],
        ProbeArg::Json => seq!["-of"@, "json"@],
        ProbeArg::ShowError => seq!["-show_error"@],
        ProbeArg::ShowFormat => seq!["-show_format"@],
        ProbeArg::ShowStreams => seq!["-show_streams"@],
        ProbeArg::ShowChapters => seq!["-show_chapters"@],
        ProbeArg::ShowPrograms => seq!["-show_programs"@],
        ProbeArg::ShowFrames => seq!["-show_frames"@],
        ProbeArg::ShowPackets => seq!["-show_packets"@],
        ProbeArg::ShowPixelFormats => seq!["-show_pixel_formats"@],
        ProbeArg::DataHash => seq!["-show_data_hash"@, "sha256"@],
        ProbeArg::SelectStream(i) => seq!["-select_streams"@, decimal(i as nat)],
        ProbeArg::ReadIntervals(s) => seq!["-read_intervals"@, s@],
        ProbeArg::ShowEntries(s) => seq!["-show_entries"@, s@],
        ProbeArg::Input(p) => seq!["--"@, p@],
    }
}

fn token(s: &str) -> (r: String)
    ensures
        r@ == s@,
{
    String::from_str(s)
}

/// Appends the tokens of an ffprobe option.
pub fn add_probe_arg(args: &mut Vec<String>, a: ProbeArg)
    ensures
        string_views(final(args)@) == string_views(old(args)@) + probe_tokens(a),
{
    let ghost start = string_views(args@);
    let ghost tokens = probe_tokens(a);
    let mut more: Vec<String> = Vec::new();
    match a {
        ProbeArg::ErrorsOnly => {
            more.push(token("-v"));
            more.push(token("error"));
        },
        ProbeArg::Json => {
            more.push(token("-of"));
            more.push(token("json"));
        },
        ProbeArg::ShowError => more.push(token("-show_error")),
        ProbeArg::ShowFormat => more.push(token("-show_format")),
        ProbeArg::ShowStreams => more.push(token("-show_streams")),
        ProbeArg::ShowChapters => more.push(token("-show_chapters")),
        ProbeArg::ShowPrograms => more.push(token("-show_programs")),
        ProbeArg::ShowFrames => more.push(token("-show_frames")),
        ProbeArg::ShowPackets => more.push(token("-show_packets")),
        ProbeArg::ShowPixelFormats => more.push(token("-show_pixel_formats")),
        ProbeArg::DataHash => {
            more.push(token("-show_data_hash"));
            more.push(token("sha256"));
        },
        ProbeArg::SelectStream(i) => {
            more.push(token("-select_streams"));
            more.push(decimal_string(i as u64));
        },
        ProbeArg::ReadIntervals(s) => {
            more.push(token("-read_intervals"));
            more.push(s);
        },
        ProbeArg::ShowEntries(s) => {
            more.push(token("-show_entries"));
            more.push(s);
        },
        ProbeArg::Input(p) => {
            more.push(token("--"));
            more.push(p);
        },
    }
    assert(string_views(more@) =~= tokens);
    push_all(args, more);
}

/// The tokens of a list of ffprobe options, in order.
pub open spec fn probe_option_tokens(opts: Seq<ProbeArg>) -> Seq<Seq<char>>
    decreases opts.len(),
{
    if opts.len() == 0 {
        seq![]
    } else {
        probe_option_tokens(opts.drop_last()) + probe_tokens(opts.last())
    }
}

/// An ffprobe query's command line: errors only, JSON output, the reported error,
/// then `options`, then the input.
pub fn probe_query(options: Vec<ProbeArg>, input: &str) -> (r: Vec<String>)
    ensures
        string_views(r@) == seq!["-v"@, "error"@, "-of"@, "json"@, "-show_error"@] + probe_option_tokens(
            options@,
        ) + seq!["--"@, input@],
{
    let mut r: Vec<String> = Vec::new();
    assert(string_views(r@) =~= seq![]);
    add_probe_arg(&mut r, ProbeArg::ErrorsOnly);
    add_probe_arg(&mut r, ProbeArg::Json);
    add_probe_arg(&mut r, ProbeArg::ShowError);
    let ghost head = string_views(r@);
    assert(head =~= seq!["-v"@, "error"@, "-of"@, "json"@, "-show_error"@]);
    let ghost ov = options@;
    let mut opts = options;
    let ghost mut done: Seq<ProbeArg> = seq![];
    assert(done + opts@ =~= ov);
    assert(head + probe_option_tokens(done) =~= head);
    while opts.len() > 0
        invariant
            done + opts@ == ov,
            string_views(r@) == head + probe_option_tokens(done),
        decreases opts@.len(),
    {
        let ghost before = opts@;
        let a = opts.remove(0);
        proof {
            assert(a == before[0]);
            assert(done.push(a) + opts@ =~= ov) by {
                assert(opts@ =~= before.drop_first());
            }
            assert(done.push(a).drop_last() =~= done);
        }
        add_probe_arg(&mut r, a);
        proof {
            done = done.push(a);
        }
        assert(string_views(r@) =~= head + probe_option_tokens(done));
    }
    assert(done =~= ov);
    add_probe_arg(&mut r, ProbeArg::Input(String::from_str(input)));
    r
}

/// How a command is written in the log: the program and each argument, separated by spaces.
pub open spec fn command_line(program: Seq<char>, args: Seq<Seq<char>>) -> Seq<char>
    decreases args.len(),
{
    if args.len() == 0 {
        program
    } else {
        command_line(program, args.drop_last()) + " "@ + args.last()
    }
}

/// The command as it is logged.
pub fn command_text(program: &str, args: &Vec<String>) -> (r: String)
    ensures
        r@ == command_line(program@, string_views(args@)),
{
    let ghost v = string_views(args@);
    let mut out = String::from_str(program);
    let mut i: usize = 0;
    assert(v.take(0) =~= seq![]);
    while i < args.len()
        invariant
            v == string_views(args@),
            i <= v.len(),
            out@ == command_line(program@, v.take(i as int)),
        decreases v.len() - i,
    {
        proof {
            assert(v.take(i + 1).drop_last() =~= v.take(i as int));
            assert(v.take(i + 1).last() == args@[i as int]@);
        }
        out = out.concat(" ").concat(args[i].as_str());
        i += 1;
    }
    assert(v.take(v.len() as int) =~= v);
    out
}

} // verus!
