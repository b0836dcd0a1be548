//! Properties that relate several operations of the library.
use vstd::prelude::*;
use crate::decoding::{direct_target, frame_output_args, DecodingBackend};
use crate::encoding::{
    codec_from_text, codec_text, encoding_name, encoding_rate, multipass_from_text, multipass_text,
    nvenc_preset_from_text, nvenc_preset_text, preset_from_text, preset_of, preset_text,
    preset_update, qsv_preset_from_text, qsv_preset_text, quality_bounds_of, quality_option_of,
    with_rate, NvencMultipass, NvencPreset, Preset, QsvPreset, RateControl, VideoCodec,
    VideoEncoding,
};
use crate::media::{opt_view, samples_of, stream_descriptor, stream_kind, MediaInfo, MediaStream, PixelFormat, Chroma};
use crate::messages::{
    entries_of, lemma_shown_text_concat, shown_text, Filter, MessageLevel, MessageSource,
};
use crate::plan::{
    common_output_args, initial_state, is_cover_attachment, is_native_attachment, leading_args, plan_step, plan_streams,
    AttachmentInput, PlanState,
    planned, plan_from_state, trailing_args, active_encoding_of, Container, TranscodeRequest,
};
use crate::messages::{is_line_break, scan_from, scan_lines};
use crate::prediction::escaped_chars;
use crate::progress::{empty_progress, key_value, progress_step, ProgressView};
use crate::fingerprint::{distinct, fed_states, stream_fold, PacketRecord, StreamState};
use crate::plan::{container_extension, input_container, lists_format, TranscodePlan};
use crate::path::{lowercase, path_extension};
use crate::compare::{
    added_tags, audio_findings, changed_if, changed_tags, copied_findings, is_copied, layout_findings, set_flags,
    side_views, sorted_by_type, video_findings, Field, chapter_pairs, container_findings, chapter_findings,
    program_views, added_streams, kind_position, match_streams, pair_findings, planned_tags, structure_comparison,
    tag_findings, value_ignoring_case, Finding, Scope, TagView,
};
use crate::pixel_format::{surface_format, surface_target};
use crate::capabilities::{first_formats, first_heading, heading_name, listed_formats};
use crate::warning::{actual_tags, expected_tags, finding_fits, scope_fits};
use crate::choices::{fresh_encoding, preset_labels, vaapi_codec};
use crate::encoding::{device_part, encoder_parse_error, name_part, parsed_encoding};
use crate::text::{all_digits, decimal, digits_value, is_char, is_digit, lemma_find_from_is, split_once};

verus! {

/// Every x264/x265 preset is read back from the name it is written with.
pub proof fn law_preset_names_read_back(p: Preset)
    ensures
        preset_from_text(preset_text(p)) == Some(p),
{
    reveal_strlit("ultrafast");
    reveal_strlit("superfast");
    reveal_strlit("veryfast");
    reveal_strlit("faster");
    reveal_strlit("fast");
    reveal_strlit("medium");
    reveal_strlit("slow");
    reveal_strlit("slower");
    reveal_strlit("veryslow");
    assert("ultrafast"@.len() == 9 && "superfast"@.len() == 9 && "veryfast"@.len() == 8);
    assert("faster"@.len() == 6 && "fast"@.len() == 4 && "medium"@.len() == 6);
    assert("slow"@.len() == 4 && "slower"@.len() == 6 && "veryslow"@.len() == 8);
    assert("ultrafast"@[0] != "superfast"@[0]);
    assert("veryfast"@[4] != "veryslow"@[4]);
    assert("faster"@[0] != "medium"@[0]);
    assert("faster"@[0] != "slower"@[0]);
    assert("medium"@[0] != "slower"@[0]);
    assert("fast"@[0] != "slow"@[0]);
}

/// Every Quick Sync preset is read back from the name it is written with.
pub proof fn law_qsv_preset_names_read_back(p: QsvPreset)
    ensures
        qsv_preset_from_text(qsv_preset_text(p)) == Some(p),
{
    reveal_strlit("veryfast");
    reveal_strlit("faster");
    reveal_strlit("fast");
    reveal_strlit("medium");
    reveal_strlit("slow");
    reveal_strlit("slower");
    reveal_strlit("veryslow");
    assert("veryfast"@.len() == 8 && "faster"@.len() == 6 && "fast"@.len() == 4 && "medium"@.len() == 6);
    assert("slow"@.len() == 4 && "slower"@.len() == 6 && "veryslow"@.len() == 8);
    assert("veryfast"@[4] != "veryslow"@[4]);
    assert("faster"@[0] != "medium"@[0]);
    assert("faster"@[0] != "slower"@[0]);
    assert("medium"@[0] != "slower"@[0]);
    assert("fast"@[0] != "slow"@[0]);
}

/// Every NVENC preset is read back from the name it is written with.
pub proof fn law_nvenc_preset_names_read_back(p: NvencPreset)
    ensures
        nvenc_preset_from_text(nvenc_preset_text(p)) == Some(p),
{
    reveal_strlit("p1");
    reveal_strlit("p2");
    reveal_strlit("p3");
    reveal_strlit("p4");
    reveal_strlit("p5");
    reveal_strlit("p6");
    reveal_strlit("p7");
    assert("p1"@[1] != "p2"@[1] && "p1"@[1] != "p3"@[1] && "p1"@[1] != "p4"@[1] && "p1"@[1] != "p5"@[1]
        && "p1"@[1] != "p6"@[1] && "p1"@[1] != "p7"@[1]);
    assert("p2"@[1] != "p3"@[1] && "p2"@[1] != "p4"@[1] && "p2"@[1] != "p5"@[1] && "p2"@[1] != "p6"@[1]
        && "p2"@[1] != "p7"@[1]);
    assert("p3"@[1] != "p4"@[1] && "p3"@[1] != "p5"@[1] && "p3"@[1] != "p6"@[1] && "p3"@[1] != "p7"@[1]);
    assert("p4"@[1] != "p5"@[1] && "p4"@[1] != "p6"@[1] && "p4"@[1] != "p7"@[1]);
    assert("p5"@[1] != "p6"@[1] && "p5"@[1] != "p7"@[1]);
    assert("p6"@[1] != "p7"@[1]);
}

/// Every NVENC multipass mode is read back from the name it is written with.
pub proof fn law_multipass_names_read_back(m: NvencMultipass)
    ensures
        multipass_from_text(multipass_text(m)) == Some(m),
{
    reveal_strlit("disabled");
    reveal_strlit("qres");
    reveal_strlit("fullres");
    assert("disabled"@.len() != "qres"@.len());
    assert("disabled"@.len() != "fullres"@.len());
    assert("qres"@.len() != "fullres"@.len());
}

/// Every codec is read back from the name it is written with.
pub proof fn law_codec_names_read_back(c: VideoCodec)
    ensures
        codec_from_text(codec_text(c)) == Some(c),
{
    reveal_strlit("h264");
    reveal_strlit("hevc");
    reveal_strlit("av1");
    assert("h264"@[1] != "hevc"@[1]);
    assert("h264"@.len() != "av1"@.len());
    assert("hevc"@.len() != "av1"@.len());
}

/// Setting the rate control is what reading it gives back, and it leaves the
/// encoder, its name, its quality range and its speed knobs as they were.
pub proof fn law_rate_reads_back(e: VideoEncoding, r: Option<RateControl>)
    ensures
        encoding_rate(with_rate(e, r)) == r,
        encoding_name(with_rate(e, r)) == encoding_name(e),
        quality_bounds_of(with_rate(e, r)) == quality_bounds_of(e),
        quality_option_of(with_rate(e, r)) == quality_option_of(e),
        preset_of(with_rate(e, r)) == preset_of(e),
        with_rate(with_rate(e, r), encoding_rate(e)) == e,
{
}

/// An empty preset leaves an encoding unchanged; a named preset that is accepted
/// is what reading the preset gives back.
pub proof fn law_preset_reads_back(e: VideoEncoding, v: Seq<char>)
    ensures
        preset_update(e, seq![]) == Ok::<VideoEncoding, Seq<char>>(e),
        (e is X264 || e is X265 || e is Qsv || e is Nvenc) && v.len() > 0 ==> match preset_update(e, v) {
            Ok(f) => preset_of(f) == Some(v),
            Err(_) => true,
        },
        preset_update(e, v) matches Ok(f) ==> encoding_name(f) == encoding_name(e) && encoding_rate(f)
            == encoding_rate(e),
{
    if v.len() > 0 {
        match e {
            VideoEncoding::X264 { .. } | VideoEncoding::X265 { .. } => {
                if let Some(p) = preset_from_text(v) {
                    lemma_preset_text_of(v, p);
                }
            },
            VideoEncoding::Qsv { .. } => {
                if let Some(p) = qsv_preset_from_text(v) {
                    lemma_qsv_text_of(v, p);
                }
            },
            VideoEncoding::Nvenc { .. } => {
                if let Some(p) = nvenc_preset_from_text(v) {
                    lemma_nvenc_text_of(v, p);
                }
            },
            _ => {},
        }
    }
}

proof fn lemma_preset_text_of(v: Seq<char>, p: Preset)
    requires
        preset_from_text(v) == Some(p),
    ensures
        preset_text(p) == v,
{
}

proof fn lemma_qsv_text_of(v: Seq<char>, p: QsvPreset)
    requires
        qsv_preset_from_text(v) == Some(p),
    ensures
        qsv_preset_text(p) == v,
{
}

proof fn lemma_nvenc_text_of(v: Seq<char>, p: NvencPreset)
    requires
        nvenc_preset_from_text(v) == Some(p),
    ensures
        nvenc_preset_text(p) == v,
{
}

/// A progress line completes the record being collected: afterwards the next record
/// starts empty, so no field of one record leaks into the next; other lines never
/// complete a record. A record comes out exactly for `progress=continue` and
/// `progress=end`, and is finished exactly for `end`.
pub proof fn law_progress_records_do_not_leak(cur: ProgressView, line: Seq<char>)
    ensures
        progress_step(cur, line).1 is Some <==> (key_value(line) matches Some((k, v)) && k == "progress"@ && (v
            == "continue"@ || v == "end"@)),
        progress_step(cur, line).1 matches Some(r) ==> r.7 == (key_value(line).unwrap().1 == "end"@),
        key_value(line) matches Some((k, _)) && k == "progress"@ ==> progress_step(cur, line).0
            == empty_progress(),
        !(key_value(line) matches Some((k, _)) && k == "progress"@) ==> progress_step(cur, line).1 is None,
        progress_step(cur, line).1 matches Some(r) ==> r.0 == cur.0 && r.1 == cur.1 && r.2 == cur.2 && r.3
            == cur.3 && r.4 == cur.4 && r.5 == cur.5 && r.6 == cur.6,
{
    reveal_strlit("frame");
    reveal_strlit("fps");
    reveal_strlit("speed");
    reveal_strlit("total_size");
    reveal_strlit("out_time_us");
    reveal_strlit("dup_frames");
    reveal_strlit("drop_frames");
    reveal_strlit("progress");
    assert("progress"@.len() == 8);
    assert("frame"@.len() == 5 && "fps"@.len() == 3 && "speed"@.len() == 5 && "total_size"@.len() == 10);
    assert("out_time_us"@.len() == 11 && "dup_frames"@.len() == 10 && "drop_frames"@.len() == 11);
}

/// What the log shows after new messages are logged is what it showed before
/// followed by what logging them returned.
pub proof fn law_log_text_grows_by_what_push_shows(
    f: Filter,
    logged: Seq<(MessageSource, MessageLevel, Seq<char>)>,
    source: MessageSource,
    level: MessageLevel,
    lines: Seq<Seq<char>>,
)
    ensures
        shown_text(f, logged + entries_of(source, level, lines)) == shown_text(f, logged) + shown_text(
            f,
            entries_of(source, level, lines),
        ),
{
    lemma_shown_text_concat(f, logged, entries_of(source, level, lines));
}

/// When decoder and encoder share hardware, frames go straight to the encoder: the
/// output options are only the hardware pixel format, with no filter.
pub proof fn law_direct_frames_need_no_filter(
    d: DecodingBackend,
    e: VideoEncoding,
    source: PixelFormat,
    output_index: usize,
    target: Seq<char>,
)
    requires
        direct_target(d, e) is Some,
    ensures
        frame_output_args(d, e, source, output_index, target).len() == 2,
{
}

/// A stream's contribution to the arguments of a copy: its `-map`, unless it is a
/// cover that Matroska writes as an attachment.
pub open spec fn copy_maps(c: Container, ss: Seq<MediaStream>) -> Seq<Seq<char>>
    decreases ss.len(),
{
    if ss.len() == 0 {
        seq![]
    } else {
        copy_maps(c, ss.drop_last()) + if is_cover_attachment(c, ss.last()) {
            seq![]
        } else {
            seq!["-map"@, crate::args::indexed("0:"@, ss.last().index as nat)]
        }
    }
}

/// Copying never fails and adds no encoder option: after the global mappings and
/// `-c copy` come only the `-map` of every stream in input order (covers that
/// Matroska attaches excepted), and nothing is decoded before the input.
pub proof fn law_copy_maps_every_stream_in_order(r: TranscodeRequest, m: MediaInfo, c: Container, formats: Seq<Seq<char>>)
    requires
        r.video is Copy,
    ensures
        planned(r, m, c, formats) matches Ok(st) && st.0 == leading_args(r, None) && st.1
            == common_output_args(None) + copy_maps(c, m.streams@) && !st.4,
{
    lemma_copy_streams(r, m, c, formats, m.streams@);
}

proof fn lemma_copy_streams(r: TranscodeRequest, m: MediaInfo, c: Container, formats: Seq<Seq<char>>, ss: Seq<MediaStream>)
    requires
        r.video is Copy,
    ensures
        plan_streams(c, None, r.decoding, m, formats, initial_state(r, None), ss) matches Ok(st) && st.0
            == leading_args(r, None) && st.1 == common_output_args(None) + copy_maps(c, ss) && !st.4,
    decreases ss.len(),
{
    reveal(plan_step);
    if ss.len() == 0 {
        assert(common_output_args(None) + copy_maps(c, ss) =~= common_output_args(None));
    } else {
        lemma_copy_streams(r, m, c, formats, ss.drop_last());
        let st = plan_streams(c, None, r.decoding, m, formats, initial_state(r, None), ss.drop_last())->Ok_0;
        assert(common_output_args(None) + copy_maps(c, ss) =~= common_output_args(None) + copy_maps(
            c,
            ss.drop_last(),
        ) + if is_cover_attachment(c, ss.last()) {
            seq![]
        } else {
            seq!["-map"@, crate::args::indexed("0:"@, ss.last().index as nat)]
        });
        if is_cover_attachment(c, ss.last()) {
            assert(st.1 + seq![] =~= st.1);
        }
    }
}

/// The overwrite choice is the first argument of every plan: `-y` to overwrite, `-n` to keep.
pub proof fn law_overwrite_comes_first(r: TranscodeRequest, e: Option<VideoEncoding>)
    ensures
        leading_args(r, e).len() >= 1,
        leading_args(r, e)[0] == if r.overwrite {
            "-y"@
        } else {
            "-n"@
        },
{
}

/// Packets of different streams can arrive in either order: the fingerprints
/// come out the same.
pub proof fn law_streams_fingerprint_independently(
    states: Seq<StreamState>,
    a: (usize, Seq<u8>, Seq<u8>, Seq<u8>),
    b: (usize, Seq<u8>, Seq<u8>, Seq<u8>),
)
    requires
        a.0 != b.0,
    ensures
        fed_states(fed_states(states, a.0, a.1, a.2, a.3), b.0, b.1, b.2, b.3) == fed_states(
            fed_states(states, b.0, b.1, b.2, b.3),
            a.0,
            a.1,
            a.2,
            a.3,
        ),
{
    assert(fed_states(fed_states(states, a.0, a.1, a.2, a.3), b.0, b.1, b.2, b.3) =~= fed_states(
        fed_states(states, b.0, b.1, b.2, b.3),
        a.0,
        a.1,
        a.2,
        a.3,
    ));
}

proof fn lemma_extensions_differ(c: Container, d: Container)
    requires
        container_extension(c) == container_extension(d),
    ensures
        c == d,
{
    reveal_strlit("mkv");
    reveal_strlit("mp4");
    reveal_strlit("mov");
    reveal_strlit("m4a");
    reveal_strlit("3gp");
    reveal_strlit("3g2");
    reveal_strlit("f4v");
    reveal_strlit("ismv");
    reveal_strlit("psp");
    reveal_strlit("webm");
    reveal_strlit("ts");
    reveal_strlit("m2ts");
    reveal_strlit("avi");
    reveal_strlit("flv");
    reveal_strlit("asf");
    reveal_strlit("wmv");
    reveal_strlit("mpg");
    reveal_strlit("vob");
    reveal_strlit("ogg");
    reveal_strlit("ogv");
    reveal_strlit("mpeg");
    let x = container_extension(c);
    let y = container_extension(d);
    assert(x.len() == y.len());
    assert(x[0] == y[0]);
    assert(x[1] == y[1]);
    if x.len() >= 3 {
        assert(x[2] == y[2]);
    }
    if x.len() >= 4 {
        assert(x[3] == y[3]);
    }
}

/// Every container is named by its own extension, which no other container has
/// and which is not the `mpeg` alias.
pub proof fn law_container_names_read_back(c: Container)
    ensures
        forall|d: Container| #[trigger] container_extension(d) == container_extension(c) ==> d == c,
        container_extension(c) != "mpeg"@,
{
    assert forall|d: Container| #[trigger] container_extension(d) == container_extension(c) implies d == c by {
        lemma_extensions_differ(c, d);
    }
    reveal_strlit("mkv");
    reveal_strlit("mp4");
    reveal_strlit("mov");
    reveal_strlit("m4a");
    reveal_strlit("3gp");
    reveal_strlit("3g2");
    reveal_strlit("f4v");
    reveal_strlit("ismv");
    reveal_strlit("psp");
    reveal_strlit("webm");
    reveal_strlit("ts");
    reveal_strlit("m2ts");
    reveal_strlit("avi");
    reveal_strlit("flv");
    reveal_strlit("asf");
    reveal_strlit("wmv");
    reveal_strlit("mpg");
    reveal_strlit("vob");
    reveal_strlit("ogg");
    reveal_strlit("ogv");
    reveal_strlit("mpeg");
    let x = container_extension(c);
    if x == "mpeg"@ {
        assert(x.len() == 4);
        assert(x[0] == 'm' && x[1] == 'p' && x[2] == 'e');
    }
}

/// `s` holds no `c`: splitting at `c` finds nothing.
proof fn lemma_split_absent(s: Seq<char>, c: char)
    requires
        forall|j: int| 0 <= j < s.len() ==> s[j] != c,
    ensures
        split_once(s, c) is None,
{
    lemma_find_from_is(s, is_char(c), 0, s.len());
}

/// The first `c` in `s` is at `k`: splitting at `c` gives what lies on either side.
proof fn lemma_split_at(s: Seq<char>, c: char, k: nat)
    requires
        k < s.len(),
        s[k as int] == c,
        forall|j: int| 0 <= j < k ==> s[j] != c,
    ensures
        split_once(s, c) == Some((s.take(k as int), s.skip(k + 1 as int))),
{
    lemma_find_from_is(s, is_char(c), 0, k);
}

/// A hardware encoder name: a codec, `_`, a backend, and no `=`.
proof fn lemma_hardware_name(n: Seq<char>, codec: Seq<char>, backend: Seq<char>)
    requires
        n =~= codec + seq!['_'] + backend,
        forall|j: int| 0 <= j < codec.len() ==> codec[j] != '_',
        forall|j: int| 0 <= j < n.len() ==> n[j] != '=',
    ensures
        split_once(n, '=') is None,
        split_once(n, '_') == Some((codec, backend)),
        name_part(n) == n,
        device_part(n) is None,
{
    lemma_split_absent(n, '=');
    lemma_split_at(n, '_', codec.len());
    assert(n.take(codec.len() as int) =~= codec);
    assert(n.skip(codec.len() + 1 as int) =~= backend);
}

/// A software encoder name: no `_` and no `=`.
proof fn lemma_software_name(n: Seq<char>)
    requires
        forall|j: int| 0 <= j < n.len() ==> n[j] != '=' && n[j] != '_',
    ensures
        split_once(n, '=') is None,
        split_once(n, '_') is None,
        name_part(n) == n,
        device_part(n) is None,
{
    lemma_split_absent(n, '=');
    lemma_split_absent(n, '_');
}

/// The names the forms offer split as encoder names: no device, and each part known.
#[verifier::spinoff_prover]
#[verifier::rlimit(40)]
proof fn lemma_offered_names(name: Seq<char>)
    requires
        preset_labels(name) is Some,
    ensures
        encoder_parse_error(name) is None,
        name_part(name) == name,
        device_part(name) is None,
{
    reveal_strlit("libx264");
    reveal_strlit("libx265");
    reveal_strlit("libsvtav1");
    reveal_strlit("libaom-av1");
    reveal_strlit("librav1e");
    reveal_strlit("h264_nvenc");
    reveal_strlit("hevc_nvenc");
    reveal_strlit("av1_nvenc");
    reveal_strlit("h264_qsv");
    reveal_strlit("hevc_qsv");
    reveal_strlit("av1_qsv");
    reveal_strlit("h264_vaapi");
    reveal_strlit("hevc_vaapi");
    reveal_strlit("av1_vaapi");
    reveal_strlit("h264");
    reveal_strlit("hevc");
    reveal_strlit("av1");
    reveal_strlit("nvenc");
    reveal_strlit("qsv");
    reveal_strlit("vaapi");
    reveal_strlit("_nvenc");
    reveal_strlit("_qsv");
    reveal_strlit("_vaapi");
    if name == "libx264"@ {
        assert(name =~= seq!['l', 'i', 'b', 'x', '2', '6', '4']);
        lemma_software_name(name);
    } else if name == "libx265"@ {
        assert(name =~= seq!['l', 'i', 'b', 'x', '2', '6', '5']);
        lemma_software_name(name);
    } else if name == "libsvtav1"@ {
        assert(name =~= seq!['l', 'i', 'b', 's', 'v', 't', 'a', 'v', '1']);
        lemma_software_name(name);
    } else if name == "libaom-av1"@ {
        assert(name =~= seq!['l', 'i', 'b', 'a', 'o', 'm', '-', 'a', 'v', '1']);
        lemma_software_name(name);
    } else if name == "librav1e"@ {
        assert(name =~= seq!['l', 'i', 'b', 'r', 'a', 'v', '1', 'e']);
        lemma_software_name(name);
    } else if name == "h264_nvenc"@ {
        assert("h264"@ =~= seq!['h', '2', '6', '4']);
        assert(name =~= seq!['h', '2', '6', '4', '_', 'n', 'v', 'e', 'n', 'c']);
        lemma_hardware_name(name, "h264"@, "nvenc"@);
    } else if name == "hevc_nvenc"@ {
        assert("hevc"@ =~= seq!['h', 'e', 'v', 'c']);
        assert(name =~= seq!['h', 'e', 'v', 'c', '_', 'n', 'v', 'e', 'n', 'c']);
        lemma_hardware_name(name, "hevc"@, "nvenc"@);
    } else if name == "av1_nvenc"@ {
        assert("av1"@ =~= seq!['a', 'v', '1']);
        assert(name =~= seq!['a', 'v', '1', '_', 'n', 'v', 'e', 'n', 'c']);
        lemma_hardware_name(name, "av1"@, "nvenc"@);
    } else if name == "h264_qsv"@ {
        assert("h264"@ =~= seq!['h', '2', '6', '4']);
        assert(name =~= seq!['h', '2', '6', '4', '_', 'q', 's', 'v']);
        lemma_hardware_name(name, "h264"@, "qsv"@);
    } else if name == "hevc_qsv"@ {
        assert("hevc"@ =~= seq!['h', 'e', 'v', 'c']);
        assert(name =~= seq!['h', 'e', 'v', 'c', '_', 'q', 's', 'v']);
        lemma_hardware_name(name, "hevc"@, "qsv"@);
    } else if name == "av1_qsv"@ {
        assert("av1"@ =~= seq!['a', 'v', '1']);
        assert(name =~= seq!['a', 'v', '1', '_', 'q', 's', 'v']);
        lemma_hardware_name(name, "av1"@, "qsv"@);
    } else if name == "h264_vaapi"@ {
        assert("h264"@ =~= seq!['h', '2', '6', '4']);
        assert(name =~= seq!['h', '2', '6', '4', '_', 'v', 'a', 'a', 'p', 'i']);
        lemma_hardware_name(name, "h264"@, "vaapi"@);
    } else if name == "hevc_vaapi"@ {
        assert("hevc"@ =~= seq!['h', 'e', 'v', 'c']);
        assert(name =~= seq!['h', 'e', 'v', 'c', '_', 'v', 'a', 'a', 'p', 'i']);
        lemma_hardware_name(name, "hevc"@, "vaapi"@);
    } else if name == "av1_vaapi"@ {
        assert("av1"@ =~= seq!['a', 'v', '1']);
        assert(name =~= seq!['a', 'v', '1', '_', 'v', 'a', 'a', 'p', 'i']);
        lemma_hardware_name(name, "av1"@, "vaapi"@);
    }
}

/// Every encoder the forms offer is accepted by the encoder parser, which reads it
/// as the encoding the form starts from: no knobs set and, for VAAPI, the codec the
/// name gives.
#[verifier::spinoff_prover]
#[verifier::rlimit(40)]
pub proof fn law_form_encoders_parse(name: Seq<char>, e: VideoEncoding)
    requires
        preset_labels(name) is Some,
        parsed_encoding(name, e),
    ensures
        encoder_parse_error(name) is None,
        fresh_encoding(name) matches Some(f) ==> e == f,
        fresh_encoding(name) is None ==> (e matches VideoEncoding::Vaapi { codec, rate, .. } && codec
            == vaapi_codec(name) && rate is None),
{
    reveal_strlit("libx264");
    reveal_strlit("libx265");
    reveal_strlit("libsvtav1");
    reveal_strlit("libaom-av1");
    reveal_strlit("librav1e");
    reveal_strlit("h264_nvenc");
    reveal_strlit("hevc_nvenc");
    reveal_strlit("av1_nvenc");
    reveal_strlit("h264_qsv");
    reveal_strlit("hevc_qsv");
    reveal_strlit("av1_qsv");
    reveal_strlit("h264_vaapi");
    reveal_strlit("hevc_vaapi");
    reveal_strlit("av1_vaapi");
    reveal_strlit("h264");
    reveal_strlit("hevc");
    reveal_strlit("av1");
    reveal_strlit("nvenc");
    reveal_strlit("qsv");
    reveal_strlit("vaapi");
    reveal_strlit("_nvenc");
    reveal_strlit("_qsv");
    reveal_strlit("_vaapi");
    if name == "libx264"@ {
        assert(name =~= seq!['l', 'i', 'b', 'x', '2', '6', '4']);
        lemma_software_name(name);
    } else if name == "libx265"@ {
        assert(name =~= seq!['l', 'i', 'b', 'x', '2', '6', '5']);
        lemma_software_name(name);
    } else if name == "libsvtav1"@ {
        assert(name =~= seq!['l', 'i', 'b', 's', 'v', 't', 'a', 'v', '1']);
        lemma_software_name(name);
    } else if name == "libaom-av1"@ {
        assert(name =~= seq!['l', 'i', 'b', 'a', 'o', 'm', '-', 'a', 'v', '1']);
        lemma_software_name(name);
    } else if name == "librav1e"@ {
        assert(name =~= seq!['l', 'i', 'b', 'r', 'a', 'v', '1', 'e']);
        lemma_software_name(name);
    } else if name == "h264_nvenc"@ {
        assert("h264"@ =~= seq!['h', '2', '6', '4']);
        assert(name =~= seq!['h', '2', '6', '4', '_', 'n', 'v', 'e', 'n', 'c']);
        lemma_hardware_name(name, "h264"@, "nvenc"@);
    } else if name == "hevc_nvenc"@ {
        assert("hevc"@ =~= seq!['h', 'e', 'v', 'c']);
        assert(name =~= seq!['h', 'e', 'v', 'c', '_', 'n', 'v', 'e', 'n', 'c']);
        lemma_hardware_name(name, "hevc"@, "nvenc"@);
    } else if name == "av1_nvenc"@ {
        assert("av1"@ =~= seq!['a', 'v', '1']);
        assert(name =~= seq!['a', 'v', '1', '_', 'n', 'v', 'e', 'n', 'c']);
        lemma_hardware_name(name, "av1"@, "nvenc"@);
    } else if name == "h264_qsv"@ {
        assert("h264"@ =~= seq!['h', '2', '6', '4']);
        assert(name =~= seq!['h', '2', '6', '4', '_', 'q', 's', 'v']);
        lemma_hardware_name(name, "h264"@, "qsv"@);
    } else if name == "hevc_qsv"@ {
        assert("hevc"@ =~= seq!['h', 'e', 'v', 'c']);
        assert(name =~= seq!['h', 'e', 'v', 'c', '_', 'q', 's', 'v']);
        lemma_hardware_name(name, "hevc"@, "qsv"@);
    } else if name == "av1_qsv"@ {
        assert("av1"@ =~= seq!['a', 'v', '1']);
        assert(name =~= seq!['a', 'v', '1', '_', 'q', 's', 'v']);
        lemma_hardware_name(name, "av1"@, "qsv"@);
    } else if name == "h264_vaapi"@ {
        assert("h264"@ =~= seq!['h', '2', '6', '4']);
        assert(name =~= seq!['h', '2', '6', '4', '_', 'v', 'a', 'a', 'p', 'i']);
        lemma_hardware_name(name, "h264"@, "vaapi"@);
    } else if name == "hevc_vaapi"@ {
        assert("hevc"@ =~= seq!['h', 'e', 'v', 'c']);
        assert(name =~= seq!['h', 'e', 'v', 'c', '_', 'v', 'a', 'a', 'p', 'i']);
        lemma_hardware_name(name, "hevc"@, "vaapi"@);
    } else if name == "av1_vaapi"@ {
        assert("av1"@ =~= seq!['a', 'v', '1']);
        assert(name =~= seq!['a', 'v', '1', '_', 'v', 'a', 'a', 'p', 'i']);
        lemma_hardware_name(name, "av1"@, "vaapi"@);
    }
}

/// The lengths of the demuxer names and extensions the container choice compares,
/// and the names of one length that differ from each other.
proof fn lemma_container_names_differ()
    ensures
        "3g2"@.len() == 3,
        "3gp"@.len() == 3,
        "asf"@.len() == 3,
        "avi"@.len() == 3,
        "f4v"@.len() == 3,
        "flv"@.len() == 3,
        "isma"@.len() == 4,
        "ismv"@.len() == 4,
        "m2t"@.len() == 3,
        "m2ts"@.len() == 4,
        "m4a"@.len() == 3,
        "m4b"@.len() == 3,
        "m4v"@.len() == 3,
        "matroska"@.len() == 8,
        "mj2"@.len() == 3,
        "mk3d"@.len() == 4,
        "mka"@.len() == 3,
        "mks"@.len() == 3,
        "mkv"@.len() == 3,
        "mov"@.len() == 3,
        "mp4"@.len() == 3,
        "mpeg"@.len() == 4,
        "mpegts"@.len() == 6,
        "mpg"@.len() == 3,
        "mts"@.len() == 3,
        "ogg"@.len() == 3,
        "ogv"@.len() == 3,
        "psp"@.len() == 3,
        "ts"@.len() == 2,
        "vob"@.len() == 3,
        "webm"@.len() == 4,
        "wmv"@.len() == 3,
        "3g2"@ != "3gp"@,
        "3g2"@ != "asf"@,
        "3g2"@ != "avi"@,
        "3g2"@ != "flv"@,
        "3g2"@ != "m4a"@,
        "3g2"@ != "mj2"@,
        "3g2"@ != "mov"@,
        "3g2"@ != "mp4"@,
        "3g2"@ != "ogg"@,
        "3gp"@ != "asf"@,
        "3gp"@ != "avi"@,
        "3gp"@ != "flv"@,
        "3gp"@ != "m4a"@,
        "3gp"@ != "mj2"@,
        "3gp"@ != "mov"@,
        "3gp"@ != "mp4"@,
        "3gp"@ != "ogg"@,
        "asf"@ != "avi"@,
        "asf"@ != "flv"@,
        "asf"@ != "m4a"@,
        "asf"@ != "mj2"@,
        "asf"@ != "mov"@,
        "asf"@ != "mp4"@,
        "asf"@ != "ogg"@,
        "avi"@ != "flv"@,
        "avi"@ != "m4a"@,
        "avi"@ != "mj2"@,
        "avi"@ != "mov"@,
        "avi"@ != "mp4"@,
        "avi"@ != "ogg"@,
        "flv"@ != "m4a"@,
        "flv"@ != "mj2"@,
        "flv"@ != "mov"@,
        "flv"@ != "mp4"@,
        "flv"@ != "ogg"@,
        "m4a"@ != "mj2"@,
        "m4a"@ != "mov"@,
        "m4a"@ != "mp4"@,
        "m4a"@ != "ogg"@,
        "mj2"@ != "mov"@,
        "mj2"@ != "mp4"@,
        "mj2"@ != "ogg"@,
        "mov"@ != "mp4"@,
        "mov"@ != "ogg"@,
        "mp4"@ != "ogg"@,
        "mpeg"@ != "webm"@,
        "3g2"@ != "f4v"@,
        "3g2"@ != "m2t"@,
        "3g2"@ != "m4b"@,
        "3g2"@ != "m4v"@,
        "3g2"@ != "mka"@,
        "3g2"@ != "mks"@,
        "3g2"@ != "mkv"@,
        "3g2"@ != "mpg"@,
        "3g2"@ != "mts"@,
        "3g2"@ != "ogv"@,
        "3g2"@ != "psp"@,
        "3g2"@ != "vob"@,
        "3g2"@ != "wmv"@,
        "3gp"@ != "f4v"@,
        "3gp"@ != "m2t"@,
        "3gp"@ != "m4b"@,
        "3gp"@ != "m4v"@,
        "3gp"@ != "mka"@,
        "3gp"@ != "mks"@,
        "3gp"@ != "mkv"@,
        "3gp"@ != "mpg"@,
        "3gp"@ != "mts"@,
        "3gp"@ != "ogv"@,
        "3gp"@ != "psp"@,
        "3gp"@ != "vob"@,
        "3gp"@ != "wmv"@,
        "asf"@ != "f4v"@,
        "asf"@ != "m2t"@,
        "asf"@ != "m4b"@,
        "asf"@ != "m4v"@,
        "asf"@ != "mka"@,
        "asf"@ != "mks"@,
        "asf"@ != "mkv"@,
        "asf"@ != "mpg"@,
        "asf"@ != "mts"@,
        "asf"@ != "ogv"@,
        "asf"@ != "psp"@,
        "asf"@ != "vob"@,
        "asf"@ != "wmv"@,
        "avi"@ != "f4v"@,
        "avi"@ != "m2t"@,
        "avi"@ != "m4b"@,
        "avi"@ != "m4v"@,
        "avi"@ != "mka"@,
        "avi"@ != "mks"@,
        "avi"@ != "mkv"@,
        "avi"@ != "mpg"@,
        "avi"@ != "mts"@,
        "avi"@ != "ogv"@,
        "avi"@ != "psp"@,
        "avi"@ != "vob"@,
        "avi"@ != "wmv"@,
        "f4v"@ != "flv"@,
        "f4v"@ != "m2t"@,
        "f4v"@ != "m4a"@,
        "f4v"@ != "m4b"@,
        "f4v"@ != "m4v"@,
        "f4v"@ != "mka"@,
        "f4v"@ != "mks"@,
        "f4v"@ != "mkv"@,
        "f4v"@ != "mov"@,
        "f4v"@ != "mp4"@,
        "f4v"@ != "mpg"@,
        "f4v"@ != "mts"@,
        "f4v"@ != "ogg"@,
        "f4v"@ != "ogv"@,
        "f4v"@ != "psp"@,
        "f4v"@ != "vob"@,
        "f4v"@ != "wmv"@,
        "flv"@ != "m2t"@,
        "flv"@ != "m4b"@,
        "flv"@ != "m4v"@,
        "flv"@ != "mka"@,
        "flv"@ != "mks"@,
        "flv"@ != "mkv"@,
        "flv"@ != "mpg"@,
        "flv"@ != "mts"@,
        "flv"@ != "ogv"@,
        "flv"@ != "psp"@,
        "flv"@ != "vob"@,
        "flv"@ != "wmv"@,
        "isma"@ != "ismv"@,
        "isma"@ != "m2ts"@,
        "isma"@ != "mk3d"@,
        "isma"@ != "webm"@,
        "ismv"@ != "m2ts"@,
        "ismv"@ != "mk3d"@,
        "ismv"@ != "webm"@,
        "m2t"@ != "m4a"@,
        "m2t"@ != "m4b"@,
        "m2t"@ != "m4v"@,
        "m2t"@ != "mka"@,
        "m2t"@ != "mks"@,
        "m2t"@ != "mkv"@,
        "m2t"@ != "mov"@,
        "m2t"@ != "mp4"@,
        "m2t"@ != "mpg"@,
        "m2t"@ != "mts"@,
        "m2t"@ != "ogg"@,
        "m2t"@ != "ogv"@,
        "m2t"@ != "psp"@,
        "m2t"@ != "vob"@,
        "m2t"@ != "wmv"@,
        "m2ts"@ != "mk3d"@,
        "m2ts"@ != "webm"@,
        "m4a"@ != "m4b"@,
        "m4a"@ != "m4v"@,
        "m4a"@ != "mka"@,
        "m4a"@ != "mks"@,
        "m4a"@ != "mkv"@,
        "m4a"@ != "mpg"@,
        "m4a"@ != "mts"@,
        "m4a"@ != "ogv"@,
        "m4a"@ != "psp"@,
        "m4a"@ != "vob"@,
        "m4a"@ != "wmv"@,
        "m4b"@ != "m4v"@,
        "m4b"@ != "mka"@,
        "m4b"@ != "mks"@,
        "m4b"@ != "mkv"@,
        "m4b"@ != "mov"@,
        "m4b"@ != "mp4"@,
        "m4b"@ != "mpg"@,
        "m4b"@ != "mts"@,
        "m4b"@ != "ogg"@,
        "m4b"@ != "ogv"@,
        "m4b"@ != "psp"@,
        "m4b"@ != "vob"@,
        "m4b"@ != "wmv"@,
        "m4v"@ != "mka"@,
        "m4v"@ != "mks"@,
        "m4v"@ != "mkv"@,
        "m4v"@ != "mov"@,
        "m4v"@ != "mp4"@,
        "m4v"@ != "mpg"@,
        "m4v"@ != "mts"@,
        "m4v"@ != "ogg"@,
        "m4v"@ != "ogv"@,
        "m4v"@ != "psp"@,
        "m4v"@ != "vob"@,
        "m4v"@ != "wmv"@,
        "mk3d"@ != "webm"@,
        "mka"@ != "mks"@,
        "mka"@ != "mkv"@,
        "mka"@ != "mov"@,
        "mka"@ != "mp4"@,
        "mka"@ != "mpg"@,
        "mka"@ != "mts"@,
        "mka"@ != "ogg"@,
        "mka"@ != "ogv"@,
        "mka"@ != "psp"@,
        "mka"@ != "vob"@,
        "mka"@ != "wmv"@,
        "mks"@ != "mkv"@,
        "mks"@ != "mov"@,
        "mks"@ != "mp4"@,
        "mks"@ != "mpg"@,
        "mks"@ != "mts"@,
        "mks"@ != "ogg"@,
        "mks"@ != "ogv"@,
        "mks"@ != "psp"@,
        "mks"@ != "vob"@,
        "mks"@ != "wmv"@,
        "mkv"@ != "mov"@,
        "mkv"@ != "mp4"@,
        "mkv"@ != "mpg"@,
        "mkv"@ != "mts"@,
        "mkv"@ != "ogg"@,
        "mkv"@ != "ogv"@,
        "mkv"@ != "psp"@,
        "mkv"@ != "vob"@,
        "mkv"@ != "wmv"@,
        "mov"@ != "mpg"@,
        "mov"@ != "mts"@,
        "mov"@ != "ogv"@,
        "mov"@ != "psp"@,
        "mov"@ != "vob"@,
        "mov"@ != "wmv"@,
        "mp4"@ != "mpg"@,
        "mp4"@ != "mts"@,
        "mp4"@ != "ogv"@,
        "mp4"@ != "psp"@,
        "mp4"@ != "vob"@,
        "mp4"@ != "wmv"@,
        "mpg"@ != "mts"@,
        "mpg"@ != "ogg"@,
        "mpg"@ != "ogv"@,
        "mpg"@ != "psp"@,
        "mpg"@ != "vob"@,
        "mpg"@ != "wmv"@,
        "mts"@ != "ogg"@,
        "mts"@ != "ogv"@,
        "mts"@ != "psp"@,
        "mts"@ != "vob"@,
        "mts"@ != "wmv"@,
        "ogg"@ != "ogv"@,
        "ogg"@ != "psp"@,
        "ogg"@ != "vob"@,
        "ogg"@ != "wmv"@,
        "ogv"@ != "psp"@,
        "ogv"@ != "vob"@,
        "ogv"@ != "wmv"@,
        "psp"@ != "vob"@,
        "psp"@ != "wmv"@,
        "vob"@ != "wmv"@,
{
    reveal_strlit("3g2");
    reveal_strlit("3gp");
    reveal_strlit("asf");
    reveal_strlit("avi");
    reveal_strlit("f4v");
    reveal_strlit("flv");
    reveal_strlit("isma");
    reveal_strlit("ismv");
    reveal_strlit("m2t");
    reveal_strlit("m2ts");
    reveal_strlit("m4a");
    reveal_strlit("m4b");
    reveal_strlit("m4v");
    reveal_strlit("matroska");
    reveal_strlit("mj2");
    reveal_strlit("mk3d");
    reveal_strlit("mka");
    reveal_strlit("mks");
    reveal_strlit("mkv");
    reveal_strlit("mov");
    reveal_strlit("mp4");
    reveal_strlit("mpeg");
    reveal_strlit("mpegts");
    reveal_strlit("mpg");
    reveal_strlit("mts");
    reveal_strlit("ogg");
    reveal_strlit("ogv");
    reveal_strlit("psp");
    reveal_strlit("ts");
    reveal_strlit("vob");
    reveal_strlit("webm");
    reveal_strlit("wmv");
    assert("3g2"@[2] != "3gp"@[2]);
    assert("3g2"@[0] != "asf"@[0]);
    assert("3g2"@[0] != "avi"@[0]);
    assert("3g2"@[0] != "flv"@[0]);
    assert("3g2"@[0] != "m4a"@[0]);
    assert("3g2"@[0] != "mj2"@[0]);
    assert("3g2"@[0] != "mov"@[0]);
    assert("3g2"@[0] != "mp4"@[0]);
    assert("3g2"@[0] != "ogg"@[0]);
    assert("3gp"@[0] != "asf"@[0]);
    assert("3gp"@[0] != "avi"@[0]);
    assert("3gp"@[0] != "flv"@[0]);
    assert("3gp"@[0] != "m4a"@[0]);
    assert("3gp"@[0] != "mj2"@[0]);
    assert("3gp"@[0] != "mov"@[0]);
    assert("3gp"@[0] != "mp4"@[0]);
    assert("3gp"@[0] != "ogg"@[0]);
    assert("asf"@[1] != "avi"@[1]);
    assert("asf"@[0] != "flv"@[0]);
    assert("asf"@[0] != "m4a"@[0]);
    assert("asf"@[0] != "mj2"@[0]);
    assert("asf"@[0] != "mov"@[0]);
    assert("asf"@[0] != "mp4"@[0]);
    assert("asf"@[0] != "ogg"@[0]);
    assert("avi"@[0] != "flv"@[0]);
    assert("avi"@[0] != "m4a"@[0]);
    assert("avi"@[0] != "mj2"@[0]);
    assert("avi"@[0] != "mov"@[0]);
    assert("avi"@[0] != "mp4"@[0]);
    assert("avi"@[0] != "ogg"@[0]);
    assert("flv"@[0] != "m4a"@[0]);
    assert("flv"@[0] != "mj2"@[0]);
    assert("flv"@[0] != "mov"@[0]);
    assert("flv"@[0] != "mp4"@[0]);
    assert("flv"@[0] != "ogg"@[0]);
    assert("m4a"@[1] != "mj2"@[1]);
    assert("m4a"@[1] != "mov"@[1]);
    assert("m4a"@[1] != "mp4"@[1]);
    assert("m4a"@[0] != "ogg"@[0]);
    assert("mj2"@[1] != "mov"@[1]);
    assert("mj2"@[1] != "mp4"@[1]);
    assert("mj2"@[0] != "ogg"@[0]);
    assert("mov"@[1] != "mp4"@[1]);
    assert("mov"@[0] != "ogg"@[0]);
    assert("mp4"@[0] != "ogg"@[0]);
    assert("mpeg"@[0] != "webm"@[0]);
    assert("3g2"@[0] != "f4v"@[0]);
    assert("3g2"@[0] != "m2t"@[0]);
    assert("3g2"@[0] != "m4b"@[0]);
    assert("3g2"@[0] != "m4v"@[0]);
    assert("3g2"@[0] != "mka"@[0]);
    assert("3g2"@[0] != "mks"@[0]);
    assert("3g2"@[0] != "mkv"@[0]);
    assert("3g2"@[0] != "mpg"@[0]);
    assert("3g2"@[0] != "mts"@[0]);
    assert("3g2"@[0] != "ogv"@[0]);
    assert("3g2"@[0] != "psp"@[0]);
    assert("3g2"@[0] != "vob"@[0]);
    assert("3g2"@[0] != "wmv"@[0]);
    assert("3gp"@[0] != "f4v"@[0]);
    assert("3gp"@[0] != "m2t"@[0]);
    assert("3gp"@[0] != "m4b"@[0]);
    assert("3gp"@[0] != "m4v"@[0]);
    assert("3gp"@[0] != "mka"@[0]);
    assert("3gp"@[0] != "mks"@[0]);
    assert("3gp"@[0] != "mkv"@[0]);
    assert("3gp"@[0] != "mpg"@[0]);
    assert("3gp"@[0] != "mts"@[0]);
    assert("3gp"@[0] != "ogv"@[0]);
    assert("3gp"@[0] != "psp"@[0]);
    assert("3gp"@[0] != "vob"@[0]);
    assert("3gp"@[0] != "wmv"@[0]);
    assert("asf"@[0] != "f4v"@[0]);
    assert("asf"@[0] != "m2t"@[0]);
    assert("asf"@[0] != "m4b"@[0]);
    assert("asf"@[0] != "m4v"@[0]);
    assert("asf"@[0] != "mka"@[0]);
    assert("asf"@[0] != "mks"@[0]);
    assert("asf"@[0] != "mkv"@[0]);
    assert("asf"@[0] != "mpg"@[0]);
    assert("asf"@[0] != "mts"@[0]);
    assert("asf"@[0] != "ogv"@[0]);
    assert("asf"@[0] != "psp"@[0]);
    assert("asf"@[0] != "vob"@[0]);
    assert("asf"@[0] != "wmv"@[0]);
    assert("avi"@[0] != "f4v"@[0]);
    assert("avi"@[0] != "m2t"@[0]);
    assert("avi"@[0] != "m4b"@[0]);
    assert("avi"@[0] != "m4v"@[0]);
    assert("avi"@[0] != "mka"@[0]);
    assert("avi"@[0] != "mks"@[0]);
    assert("avi"@[0] != "mkv"@[0]);
    assert("avi"@[0] != "mpg"@[0]);
    assert("avi"@[0] != "mts"@[0]);
    assert("avi"@[0] != "ogv"@[0]);
    assert("avi"@[0] != "psp"@[0]);
    assert("avi"@[0] != "vob"@[0]);
    assert("avi"@[0] != "wmv"@[0]);
    assert("f4v"@[1] != "flv"@[1]);
    assert("f4v"@[0] != "m2t"@[0]);
    assert("f4v"@[0] != "m4a"@[0]);
    assert("f4v"@[0] != "m4b"@[0]);
    assert("f4v"@[0] != "m4v"@[0]);
    assert("f4v"@[0] != "mka"@[0]);
    assert("f4v"@[0] != "mks"@[0]);
    assert("f4v"@[0] != "mkv"@[0]);
    assert("f4v"@[0] != "mov"@[0]);
    assert("f4v"@[0] != "mp4"@[0]);
    assert("f4v"@[0] != "mpg"@[0]);
    assert("f4v"@[0] != "mts"@[0]);
    assert("f4v"@[0] != "ogg"@[0]);
    assert("f4v"@[0] != "ogv"@[0]);
    assert("f4v"@[0] != "psp"@[0]);
    assert("f4v"@[0] != "vob"@[0]);
    assert("f4v"@[0] != "wmv"@[0]);
    assert("flv"@[0] != "m2t"@[0]);
    assert("flv"@[0] != "m4b"@[0]);
    assert("flv"@[0] != "m4v"@[0]);
    assert("flv"@[0] != "mka"@[0]);
    assert("flv"@[0] != "mks"@[0]);
    assert("flv"@[0] != "mkv"@[0]);
    assert("flv"@[0] != "mpg"@[0]);
    assert("flv"@[0] != "mts"@[0]);
    assert("flv"@[0] != "ogv"@[0]);
    assert("flv"@[0] != "psp"@[0]);
    assert("flv"@[0] != "vob"@[0]);
    assert("flv"@[0] != "wmv"@[0]);
    assert("isma"@[3] != "ismv"@[3]);
    assert("isma"@[0] != "m2ts"@[0]);
    assert("isma"@[0] != "mk3d"@[0]);
    assert("isma"@[0] != "webm"@[0]);
    assert("ismv"@[0] != "m2ts"@[0]);
    assert("ismv"@[0] != "mk3d"@[0]);
    assert("ismv"@[0] != "webm"@[0]);
    assert("m2t"@[1] != "m4a"@[1]);
    assert("m2t"@[1] != "m4b"@[1]);
    assert("m2t"@[1] != "m4v"@[1]);
    assert("m2t"@[1] != "mka"@[1]);
    assert("m2t"@[1] != "mks"@[1]);
    assert("m2t"@[1] != "mkv"@[1]);
    assert("m2t"@[1] != "mov"@[1]);
    assert("m2t"@[1] != "mp4"@[1]);
    assert("m2t"@[1] != "mpg"@[1]);
    assert("m2t"@[1] != "mts"@[1]);
    assert("m2t"@[0] != "ogg"@[0]);
    assert("m2t"@[0] != "ogv"@[0]);
    assert("m2t"@[0] != "psp"@[0]);
    assert("m2t"@[0] != "vob"@[0]);
    assert("m2t"@[0] != "wmv"@[0]);
    assert("m2ts"@[1] != "mk3d"@[1]);
    assert("m2ts"@[0] != "webm"@[0]);
    assert("m4a"@[2] != "m4b"@[2]);
    assert("m4a"@[2] != "m4v"@[2]);
    assert("m4a"@[1] != "mka"@[1]);
    assert("m4a"@[1] != "mks"@[1]);
    assert("m4a"@[1] != "mkv"@[1]);
    assert("m4a"@[1] != "mpg"@[1]);
    assert("m4a"@[1] != "mts"@[1]);
    assert("m4a"@[0] != "ogv"@[0]);
    assert("m4a"@[0] != "psp"@[0]);
    assert("m4a"@[0] != "vob"@[0]);
    assert("m4a"@[0] != "wmv"@[0]);
    assert("m4b"@[2] != "m4v"@[2]);
    assert("m4b"@[1] != "mka"@[1]);
    assert("m4b"@[1] != "mks"@[1]);
    assert("m4b"@[1] != "mkv"@[1]);
    assert("m4b"@[1] != "mov"@[1]);
    assert("m4b"@[1] != "mp4"@[1]);
    assert("m4b"@[1] != "mpg"@[1]);
    assert("m4b"@[1] != "mts"@[1]);
    assert("m4b"@[0] != "ogg"@[0]);
    assert("m4b"@[0] != "ogv"@[0]);
    assert("m4b"@[0] != "psp"@[0]);
    assert("m4b"@[0] != "vob"@[0]);
    assert("m4b"@[0] != "wmv"@[0]);
    assert("m4v"@[1] != "mka"@[1]);
    assert("m4v"@[1] != "mks"@[1]);
    assert("m4v"@[1] != "mkv"@[1]);
    assert("m4v"@[1] != "mov"@[1]);
    assert("m4v"@[1] != "mp4"@[1]);
    assert("m4v"@[1] != "mpg"@[1]);
    assert("m4v"@[1] != "mts"@[1]);
    assert("m4v"@[0] != "ogg"@[0]);
    assert("m4v"@[0] != "ogv"@[0]);
    assert("m4v"@[0] != "psp"@[0]);
    assert("m4v"@[0] != "vob"@[0]);
    assert("m4v"@[0] != "wmv"@[0]);
    assert("mk3d"@[0] != "webm"@[0]);
    assert("mka"@[2] != "mks"@[2]);
    assert("mka"@[2] != "mkv"@[2]);
    assert("mka"@[1] != "mov"@[1]);
    assert("mka"@[1] != "mp4"@[1]);
    assert("mka"@[1] != "mpg"@[1]);
    assert("mka"@[1] != "mts"@[1]);
    assert("mka"@[0] != "ogg"@[0]);
    assert("mka"@[0] != "ogv"@[0]);
    assert("mka"@[0] != "psp"@[0]);
    assert("mka"@[0] != "vob"@[0]);
    assert("mka"@[0] != "wmv"@[0]);
    assert("mks"@[2] != "mkv"@[2]);
    assert("mks"@[1] != "mov"@[1]);
    assert("mks"@[1] != "mp4"@[1]);
    assert("mks"@[1] != "mpg"@[1]);
    assert("mks"@[1] != "mts"@[1]);
    assert("mks"@[0] != "ogg"@[0]);
    assert("mks"@[0] != "ogv"@[0]);
    assert("mks"@[0] != "psp"@[0]);
    assert("mks"@[0] != "vob"@[0]);
    assert("mks"@[0] != "wmv"@[0]);
    assert("mkv"@[1] != "mov"@[1]);
    assert("mkv"@[1] != "mp4"@[1]);
    assert("mkv"@[1] != "mpg"@[1]);
    assert("mkv"@[1] != "mts"@[1]);
    assert("mkv"@[0] != "ogg"@[0]);
    assert("mkv"@[0] != "ogv"@[0]);
    assert("mkv"@[0] != "psp"@[0]);
    assert("mkv"@[0] != "vob"@[0]);
    assert("mkv"@[0] != "wmv"@[0]);
    assert("mov"@[1] != "mpg"@[1]);
    assert("mov"@[1] != "mts"@[1]);
    assert("mov"@[0] != "ogv"@[0]);
    assert("mov"@[0] != "psp"@[0]);
    assert("mov"@[0] != "vob"@[0]);
    assert("mov"@[0] != "wmv"@[0]);
    assert("mp4"@[2] != "mpg"@[2]);
    assert("mp4"@[1] != "mts"@[1]);
    assert("mp4"@[0] != "ogv"@[0]);
    assert("mp4"@[0] != "psp"@[0]);
    assert("mp4"@[0] != "vob"@[0]);
    assert("mp4"@[0] != "wmv"@[0]);
    assert("mpg"@[1] != "mts"@[1]);
    assert("mpg"@[0] != "ogg"@[0]);
    assert("mpg"@[0] != "ogv"@[0]);
    assert("mpg"@[0] != "psp"@[0]);
    assert("mpg"@[0] != "vob"@[0]);
    assert("mpg"@[0] != "wmv"@[0]);
    assert("mts"@[0] != "ogg"@[0]);
    assert("mts"@[0] != "ogv"@[0]);
    assert("mts"@[0] != "psp"@[0]);
    assert("mts"@[0] != "vob"@[0]);
    assert("mts"@[0] != "wmv"@[0]);
    assert("ogg"@[2] != "ogv"@[2]);
    assert("ogg"@[0] != "psp"@[0]);
    assert("ogg"@[0] != "vob"@[0]);
    assert("ogg"@[0] != "wmv"@[0]);
    assert("ogv"@[0] != "psp"@[0]);
    assert("ogv"@[0] != "vob"@[0]);
    assert("ogv"@[0] != "wmv"@[0]);
    assert("psp"@[0] != "vob"@[0]);
    assert("psp"@[0] != "wmv"@[0]);
    assert("vob"@[0] != "wmv"@[0]);
}

/// The demuxers ffprobe names when it reads a file of container `c`.
pub open spec fn demuxer_family(c: Container) -> Seq<Seq<char>> {
    match c {
        Container::Matroska | Container::Webm => seq!["matroska"@, "webm"@],
        Container::Mp4 | Container::Mov | Container::M4a | Container::ThreeGp | Container::ThreeG2
        | Container::F4v | Container::Ismv | Container::Psp => seq![
            "mov"@,
            "mp4"@,
            "m4a"@,
            "3gp"@,
            "3g2"@,
            "mj2"@,
        ],
        Container::MpegTs | Container::M2ts => seq!["mpegts"@],
        Container::Avi => seq!["avi"@],
        Container::Flv => seq!["flv"@],
        Container::Asf | Container::Wmv => seq!["asf"@],
        Container::MpegPs | Container::Vob => seq!["mpeg"@],
        Container::Ogg | Container::Ogv => seq!["ogg"@],
    }
}

/// A file named with a container's own extension, which ffprobe reads with that
/// container's demuxers, is written back in the same container.
#[verifier::spinoff_prover]
#[verifier::rlimit(40)]
pub proof fn law_inputs_keep_their_container(c: Container, path: Seq<char>, format: Seq<char>)
    requires
        path_extension(path) == Some(container_extension(c)),
        forall|x: Seq<char>| #[trigger] lists_format(format, x) <==> demuxer_family(c).contains(x),
    ensures
        input_container(path, format) == Some(c),
{
    reveal_strlit("3g2");
    reveal_strlit("3gp");
    reveal_strlit("asf");
    reveal_strlit("avi");
    reveal_strlit("f4v");
    reveal_strlit("flv");
    reveal_strlit("isma");
    reveal_strlit("ismv");
    reveal_strlit("m2t");
    reveal_strlit("m2ts");
    reveal_strlit("m4a");
    reveal_strlit("m4b");
    reveal_strlit("m4v");
    reveal_strlit("matroska");
    reveal_strlit("mj2");
    reveal_strlit("mk3d");
    reveal_strlit("mka");
    reveal_strlit("mks");
    reveal_strlit("mkv");
    reveal_strlit("mov");
    reveal_strlit("mp4");
    reveal_strlit("mpeg");
    reveal_strlit("mpegts");
    reveal_strlit("mpg");
    reveal_strlit("mts");
    reveal_strlit("ogg");
    reveal_strlit("ogv");
    reveal_strlit("psp");
    reveal_strlit("ts");
    reveal_strlit("vob");
    reveal_strlit("webm");
    reveal_strlit("wmv");
    lemma_container_names_differ();
    let e = container_extension(c);
    assert(lowercase(e) =~= e);
    let fam = demuxer_family(c);
    match c {
        Container::Matroska => {
            assert(fam[0] == "matroska"@);
            assert(fam[1] == "webm"@);
            assert(!fam.contains("mpegts"@));
            assert(!lists_format(format, "mpegts"@));
            assert(lists_format(format, "matroska"@));
        },
        Container::Webm => {
            assert(fam[0] == "matroska"@);
            assert(fam[1] == "webm"@);
            assert(!fam.contains("mpegts"@));
            assert(!lists_format(format, "mpegts"@));
            assert(lists_format(format, "matroska"@));
        },
        Container::MpegTs => {
            assert(fam[0] == "mpegts"@);
            assert(lists_format(format, "mpegts"@));
        },
        Container::M2ts => {
            assert(fam[0] == "mpegts"@);
            assert(lists_format(format, "mpegts"@));
        },
        Container::Avi => {
            assert(fam[0] == "avi"@);
            assert(!fam.contains("mpegts"@));
            assert(!lists_format(format, "mpegts"@));
            assert(!fam.contains("matroska"@));
            assert(!lists_format(format, "matroska"@));
            assert(!fam.contains("webm"@));
            assert(!lists_format(format, "webm"@));
            assert(!fam.contains("mov"@));
            assert(!lists_format(format, "mov"@));
            assert(!fam.contains("mp4"@));
            assert(!lists_format(format, "mp4"@));
            assert(!fam.contains("m4a"@));
            assert(!lists_format(format, "m4a"@));
            assert(!fam.contains("3gp"@));
            assert(!lists_format(format, "3gp"@));
            assert(!fam.contains("3g2"@));
            assert(!lists_format(format, "3g2"@));
            assert(!fam.contains("mj2"@));
            assert(!lists_format(format, "mj2"@));
            assert(lists_format(format, "avi"@));
        },
        Container::Flv => {
            assert(fam[0] == "flv"@);
            assert(!fam.contains("mpegts"@));
            assert(!lists_format(format, "mpegts"@));
            assert(!fam.contains("matroska"@));
            assert(!lists_format(format, "matroska"@));
            assert(!fam.contains("webm"@));
            assert(!lists_format(format, "webm"@));
            assert(!fam.contains("mov"@));
            assert(!lists_format(format, "mov"@));
            assert(!fam.contains("mp4"@));
            assert(!lists_format(format, "mp4"@));
            assert(!fam.contains("m4a"@));
            assert(!lists_format(format, "m4a"@));
            assert(!fam.contains("3gp"@));
            assert(!lists_format(format, "3gp"@));
            assert(!fam.contains("3g2"@));
            assert(!lists_format(format, "3g2"@));
            assert(!fam.contains("mj2"@));
            assert(!lists_format(format, "mj2"@));
            assert(!fam.contains("avi"@));
            assert(!lists_format(format, "avi"@));
            assert(lists_format(format, "flv"@));
        },
        Container::Asf => {
            assert(fam[0] == "asf"@);
            assert(!fam.contains("mpegts"@));
            assert(!lists_format(format, "mpegts"@));
            assert(!fam.contains("matroska"@));
            assert(!lists_format(format, "matroska"@));
            assert(!fam.contains("webm"@));
            assert(!lists_format(format, "webm"@));
            assert(!fam.contains("mov"@));
            assert(!lists_format(format, "mov"@));
            assert(!fam.contains("mp4"@));
            assert(!lists_format(format, "mp4"@));
            assert(!fam.contains("m4a"@));
            assert(!lists_format(format, "m4a"@));
            assert(!fam.contains("3gp"@));
            assert(!lists_format(format, "3gp"@));
            assert(!fam.contains("3g2"@));
            assert(!lists_format(format, "3g2"@));
            assert(!fam.contains("mj2"@));
            assert(!lists_format(format, "mj2"@));
            assert(!fam.contains("avi"@));
            assert(!lists_format(format, "avi"@));
            assert(!fam.contains("flv"@));
            assert(!lists_format(format, "flv"@));
            assert(lists_format(format, "asf"@));
        },
        Container::Wmv => {
            assert(fam[0] == "asf"@);
            assert(!fam.contains("mpegts"@));
            assert(!lists_format(format, "mpegts"@));
            assert(!fam.contains("matroska"@));
            assert(!lists_format(format, "matroska"@));
            assert(!fam.contains("webm"@));
            assert(!lists_format(format, "webm"@));
            assert(!fam.contains("mov"@));
            assert(!lists_format(format, "mov"@));
            assert(!fam.contains("mp4"@));
            assert(!lists_format(format, "mp4"@));
            assert(!fam.contains("m4a"@));
            assert(!lists_format(format, "m4a"@));
            assert(!fam.contains("3gp"@));
            assert(!lists_format(format, "3gp"@));
            assert(!fam.contains("3g2"@));
            assert(!lists_format(format, "3g2"@));
            assert(!fam.contains("mj2"@));
            assert(!lists_format(format, "mj2"@));
            assert(!fam.contains("avi"@));
            assert(!lists_format(format, "avi"@));
            assert(!fam.contains("flv"@));
            assert(!lists_format(format, "flv"@));
            assert(lists_format(format, "asf"@));
        },
        Container::MpegPs => {
            assert(fam[0] == "mpeg"@);
            assert(!fam.contains("mpegts"@));
            assert(!lists_format(format, "mpegts"@));
            assert(!fam.contains("matroska"@));
            assert(!lists_format(format, "matroska"@));
            assert(!fam.contains("webm"@));
            assert(!lists_format(format, "webm"@));
            assert(!fam.contains("mov"@));
            assert(!lists_format(format, "mov"@));
            assert(!fam.contains("mp4"@));
            assert(!lists_format(format, "mp4"@));
            assert(!fam.contains("m4a"@));
            assert(!lists_format(format, "m4a"@));
            assert(!fam.contains("3gp"@));
            assert(!lists_format(format, "3gp"@));
            assert(!fam.contains("3g2"@));
            assert(!lists_format(format, "3g2"@));
            assert(!fam.contains("mj2"@));
            assert(!lists_format(format, "mj2"@));
            assert(!fam.contains("avi"@));
            assert(!lists_format(format, "avi"@));
            assert(!fam.contains("flv"@));
            assert(!lists_format(format, "flv"@));
            assert(!fam.contains("asf"@));
            assert(!lists_format(format, "asf"@));
            assert(lists_format(format, "mpeg"@));
        },
        Container::Vob => {
            assert(fam[0] == "mpeg"@);
            assert(!fam.contains("mpegts"@));
            assert(!lists_format(format, "mpegts"@));
            assert(!fam.contains("matroska"@));
            assert(!lists_format(format, "matroska"@));
            assert(!fam.contains("webm"@));
            assert(!lists_format(format, "webm"@));
            assert(!fam.contains("mov"@));
            assert(!lists_format(format, "mov"@));
            assert(!fam.contains("mp4"@));
            assert(!lists_format(format, "mp4"@));
            assert(!fam.contains("m4a"@));
            assert(!lists_format(format, "m4a"@));
            assert(!fam.contains("3gp"@));
            assert(!lists_format(format, "3gp"@));
            assert(!fam.contains("3g2"@));
            assert(!lists_format(format, "3g2"@));
            assert(!fam.contains("mj2"@));
            assert(!lists_format(format, "mj2"@));
            assert(!fam.contains("avi"@));
            assert(!lists_format(format, "avi"@));
            assert(!fam.contains("flv"@));
            assert(!lists_format(format, "flv"@));
            assert(!fam.contains("asf"@));
            assert(!lists_format(format, "asf"@));
            assert(lists_format(format, "mpeg"@));
        },
        Container::Ogg => {
            assert(fam[0] == "ogg"@);
            assert(!fam.contains("mpegts"@));
            assert(!lists_format(format, "mpegts"@));
            assert(!fam.contains("matroska"@));
            assert(!lists_format(format, "matroska"@));
            assert(!fam.contains("webm"@));
            assert(!lists_format(format, "webm"@));
            assert(!fam.contains("mov"@));
            assert(!lists_format(format, "mov"@));
            assert(!fam.contains("mp4"@));
            assert(!lists_format(format, "mp4"@));
            assert(!fam.contains("m4a"@));
            assert(!lists_format(format, "m4a"@));
            assert(!fam.contains("3gp"@));
            assert(!lists_format(format, "3gp"@));
            assert(!fam.contains("3g2"@));
            assert(!lists_format(format, "3g2"@));
            assert(!fam.contains("mj2"@));
            assert(!lists_format(format, "mj2"@));
            assert(!fam.contains("avi"@));
            assert(!lists_format(format, "avi"@));
            assert(!fam.contains("flv"@));
            assert(!lists_format(format, "flv"@));
            assert(!fam.contains("asf"@));
            assert(!lists_format(format, "asf"@));
            assert(!fam.contains("mpeg"@));
            assert(!lists_format(format, "mpeg"@));
            assert(lists_format(format, "ogg"@));
        },
        Container::Ogv => {
            assert(fam[0] == "ogg"@);
            assert(!fam.contains("mpegts"@));
            assert(!lists_format(format, "mpegts"@));
            assert(!fam.contains("matroska"@));
            assert(!lists_format(format, "matroska"@));
            assert(!fam.contains("webm"@));
            assert(!lists_format(format, "webm"@));
            assert(!fam.contains("mov"@));
            assert(!lists_format(format, "mov"@));
            assert(!fam.contains("mp4"@));
            assert(!lists_format(format, "mp4"@));
            assert(!fam.contains("m4a"@));
            assert(!lists_format(format, "m4a"@));
            assert(!fam.contains("3gp"@));
            assert(!lists_format(format, "3gp"@));
            assert(!fam.contains("3g2"@));
            assert(!lists_format(format, "3g2"@));
            assert(!fam.contains("mj2"@));
            assert(!lists_format(format, "mj2"@));
            assert(!fam.contains("avi"@));
            assert(!lists_format(format, "avi"@));
            assert(!fam.contains("flv"@));
            assert(!lists_format(format, "flv"@));
            assert(!fam.contains("asf"@));
            assert(!lists_format(format, "asf"@));
            assert(!fam.contains("mpeg"@));
            assert(!lists_format(format, "mpeg"@));
            assert(lists_format(format, "ogg"@));
        },
        Container::Mp4 => {
            assert(fam[0] == "mov"@);
            assert(fam[1] == "mp4"@);
            assert(fam[2] == "m4a"@);
            assert(fam[3] == "3gp"@);
            assert(fam[4] == "3g2"@);
            assert(fam[5] == "mj2"@);
            assert(!fam.contains("mpegts"@));
            assert(!lists_format(format, "mpegts"@));
            assert(!fam.contains("matroska"@));
            assert(!lists_format(format, "matroska"@));
            assert(!fam.contains("webm"@));
            assert(!lists_format(format, "webm"@));
            assert(lists_format(format, "mov"@));
        },
        Container::Mov => {
            assert(fam[0] == "mov"@);
            assert(fam[1] == "mp4"@);
            assert(fam[2] == "m4a"@);
            assert(fam[3] == "3gp"@);
            assert(fam[4] == "3g2"@);
            assert(fam[5] == "mj2"@);
            assert(!fam.contains("mpegts"@));
            assert(!lists_format(format, "mpegts"@));
            assert(!fam.contains("matroska"@));
            assert(!lists_format(format, "matroska"@));
            assert(!fam.contains("webm"@));
            assert(!lists_format(format, "webm"@));
            assert(lists_format(format, "mov"@));
        },
        Container::M4a => {
            assert(fam[0] == "mov"@);
            assert(fam[1] == "mp4"@);
            assert(fam[2] == "m4a"@);
            assert(fam[3] == "3gp"@);
            assert(fam[4] == "3g2"@);
            assert(fam[5] == "mj2"@);
            assert(!fam.contains("mpegts"@));
            assert(!lists_format(format, "mpegts"@));
            assert(!fam.contains("matroska"@));
            assert(!lists_format(format, "matroska"@));
            assert(!fam.contains("webm"@));
            assert(!lists_format(format, "webm"@));
            assert(lists_format(format, "mov"@));
        },
        Container::ThreeGp => {
            assert(fam[0] == "mov"@);
            assert(fam[1] == "mp4"@);
            assert(fam[2] == "m4a"@);
            assert(fam[3] == "3gp"@);
            assert(fam[4] == "3g2"@);
            assert(fam[5] == "mj2"@);
            assert(!fam.contains("mpegts"@));
            assert(!lists_format(format, "mpegts"@));
            assert(!fam.contains("matroska"@));
            assert(!lists_format(format, "matroska"@));
            assert(!fam.contains("webm"@));
            assert(!lists_format(format, "webm"@));
            assert(lists_format(format, "mov"@));
        },
        Container::ThreeG2 => {
            assert(fam[0] == "mov"@);
            assert(fam[1] == "mp4"@);
            assert(fam[2] == "m4a"@);
            assert(fam[3] == "3gp"@);
            assert(fam[4] == "3g2"@);
            assert(fam[5] == "mj2"@);
            assert(!fam.contains("mpegts"@));
            assert(!lists_format(format, "mpegts"@));
            assert(!fam.contains("matroska"@));
            assert(!lists_format(format, "matroska"@));
            assert(!fam.contains("webm"@));
            assert(!lists_format(format, "webm"@));
            assert(lists_format(format, "mov"@));
        },
        Container::F4v => {
            assert(fam[0] == "mov"@);
            assert(fam[1] == "mp4"@);
            assert(fam[2] == "m4a"@);
            assert(fam[3] == "3gp"@);
            assert(fam[4] == "3g2"@);
            assert(fam[5] == "mj2"@);
            assert(!fam.contains("mpegts"@));
            assert(!lists_format(format, "mpegts"@));
            assert(!fam.contains("matroska"@));
            assert(!lists_format(format, "matroska"@));
            assert(!fam.contains("webm"@));
            assert(!lists_format(format, "webm"@));
            assert(lists_format(format, "mov"@));
        },
        Container::Ismv => {
            assert(fam[0] == "mov"@);
            assert(fam[1] == "mp4"@);
            assert(fam[2] == "m4a"@);
            assert(fam[3] == "3gp"@);
            assert(fam[4] == "3g2"@);
            assert(fam[5] == "mj2"@);
            assert(!fam.contains("mpegts"@));
            assert(!lists_format(format, "mpegts"@));
            assert(!fam.contains("matroska"@));
            assert(!lists_format(format, "matroska"@));
            assert(!fam.contains("webm"@));
            assert(!lists_format(format, "webm"@));
            assert(lists_format(format, "mov"@));
        },
        Container::Psp => {
            assert(fam[0] == "mov"@);
            assert(fam[1] == "mp4"@);
            assert(fam[2] == "m4a"@);
            assert(fam[3] == "3gp"@);
            assert(fam[4] == "3g2"@);
            assert(fam[5] == "mj2"@);
            assert(!fam.contains("mpegts"@));
            assert(!lists_format(format, "mpegts"@));
            assert(!fam.contains("matroska"@));
            assert(!lists_format(format, "matroska"@));
            assert(!fam.contains("webm"@));
            assert(!lists_format(format, "webm"@));
            assert(lists_format(format, "mov"@));
        },
    }
}

/// Only a stream's own packets shape its fingerprint: removing the packets of other
/// streams, wherever they stand in the list, changes nothing.
pub proof fn law_fingerprint_reads_only_its_stream(index: usize, packets: Seq<PacketRecord>)
    ensures
        stream_fold(index, packets) == stream_fold(
            index,
            packets.filter(|p: PacketRecord| p.stream_index == index),
        ),
    decreases packets.len(),
{
    reveal(Seq::filter);
    let own = |p: PacketRecord| p.stream_index == index;
    if packets.len() > 0 {
        law_fingerprint_reads_only_its_stream(index, packets.drop_last());
        let f = packets.filter(own);
        let rest = packets.drop_last().filter(own);
        if own(packets.last()) {
            assert(f == rest.push(packets.last()));
            assert(f.drop_last() =~= rest);
        } else {
            assert(f == rest);
        }
    }
}

/// Payload and timing are digested apart: two packet lists of the same streams with
/// the same times collect the same packet count and timing bytes whatever their
/// payload hashes, and with the same payload hashes collect the same payload bytes
/// whatever their times.
pub proof fn law_payload_and_timing_digest_apart(index: usize, a: Seq<PacketRecord>, b: Seq<PacketRecord>)
    requires
        a.len() == b.len(),
        forall|k: int| 0 <= k < a.len() ==> (#[trigger] a[k]).stream_index == b[k].stream_index,
    ensures
        (forall|k: int| 0 <= k < a.len() ==> (#[trigger] a[k]).pts_time == b[k].pts_time && a[k].duration_time
            == b[k].duration_time) ==> stream_fold(index, a).1 == stream_fold(index, b).1 && stream_fold(
            index,
            a,
        ).3 == stream_fold(index, b).3,
        (forall|k: int| 0 <= k < a.len() ==> (#[trigger] a[k]).data_hash == b[k].data_hash) ==> stream_fold(
            index,
            a,
        ).1 == stream_fold(index, b).1 && stream_fold(index, a).2 == stream_fold(index, b).2,
    decreases a.len(),
{
    if a.len() > 0 {
        let (a0, b0) = (a.drop_last(), b.drop_last());
        assert forall|k: int| 0 <= k < a0.len() implies (#[trigger] a0[k]).stream_index == b0[k].stream_index by {
            assert(a0[k] == a[k] && b0[k] == b[k]);
        }
        law_payload_and_timing_digest_apart(index, a0, b0);
        assert(a.last() == a[a.len() - 1] && b.last() == b[b.len() - 1]);
        if forall|k: int| 0 <= k < a.len() ==> (#[trigger] a[k]).pts_time == b[k].pts_time && a[k].duration_time
            == b[k].duration_time {
            assert forall|k: int| 0 <= k < a0.len() implies (#[trigger] a0[k]).pts_time == b0[k].pts_time
                && a0[k].duration_time == b0[k].duration_time by {
                assert(a0[k] == a[k] && b0[k] == b[k]);
            }
        }
        if forall|k: int| 0 <= k < a.len() ==> (#[trigger] a[k]).data_hash == b[k].data_hash {
            assert forall|k: int| 0 <= k < a0.len() implies (#[trigger] a0[k]).data_hash == b0[k].data_hash by {
                assert(a0[k] == a[k] && b0[k] == b[k]);
            }
        }
    }
}

/// The first output stream of a kind that `kind_position` finds is of that kind.
proof fn lemma_kind_position(am: MediaInfo, remaining: Seq<usize>, kind: Seq<char>)
    ensures
        kind_position(am, remaining, kind) <= remaining.len(),
        kind_position(am, remaining, kind) < remaining.len() ==> stream_kind(
            am.streams@[remaining[kind_position(am, remaining, kind) as int] as int],
        ) == kind,
    decreases remaining.len(),
{
    if remaining.len() > 0 && stream_kind(am.streams@[remaining[0] as int]) != kind {
        lemma_kind_position(am, remaining.drop_first(), kind);
    }
}

/// Whether the stream pairs matched so far over the first `n` input streams are
/// sound: each pairs an input stream with an output stream of the same kind, the
/// input streams come in input order, no output stream is paired twice, and the
/// output streams still unmatched are distinct, in range, and paired with none.
pub open spec fn sound_matching(
    om: MediaInfo,
    am: MediaInfo,
    remaining: Seq<usize>,
    pairs: Seq<(usize, usize)>,
    n: nat,
) -> bool {
    &&& forall|k: int| 0 <= k < remaining.len() ==> (#[trigger] remaining[k]) < am.streams@.len()
    &&& forall|k: int, l: int| 0 <= k < l < remaining.len() ==> #[trigger] remaining[k] != #[trigger] remaining[l]
    &&& forall|k: int|
        0 <= k < pairs.len() ==> {
            &&& (#[trigger] pairs[k]).0 < n
            &&& pairs[k].0 < om.streams@.len()
            &&& pairs[k].1 < am.streams@.len()
            &&& stream_kind(om.streams@[pairs[k].0 as int]) == stream_kind(am.streams@[pairs[k].1 as int])
        }
    &&& forall|k: int, l: int| 0 <= k < l < pairs.len() ==> (#[trigger] pairs[k]).0 < (#[trigger] pairs[l]).0
    &&& forall|k: int, l: int| 0 <= k < l < pairs.len() ==> (#[trigger] pairs[k]).1 != (#[trigger] pairs[l]).1
    &&& forall|k: int, m: int| 0 <= k < pairs.len() && 0 <= m < remaining.len() ==> (#[trigger] pairs[k]).1
        != #[trigger] remaining[m]
}

proof fn lemma_matching_sound(om: MediaInfo, am: MediaInfo, copy_video: bool, plan: TranscodePlan, n: nat)
    requires
        n <= om.streams@.len(),
        om.streams@.len() <= usize::MAX,
        am.streams@.len() <= usize::MAX,
    ensures
        sound_matching(om, am, match_streams(om, am, copy_video, plan, n).0, match_streams(om, am, copy_video, plan, n).2, n),
    decreases n,
{
    if n == 0 {
        let r0 = match_streams(om, am, copy_video, plan, 0).0;
        assert forall|k: int, l: int| 0 <= k < l < r0.len() implies #[trigger] r0[k] != #[trigger] r0[l] by {
            assert(r0[k] == k as usize && r0[l] == l as usize);
        }
    }
    if n > 0 {
        lemma_matching_sound(om, am, copy_video, plan, (n - 1) as nat);
        let (remaining, findings, pairs) = match_streams(om, am, copy_video, plan, (n - 1) as nat);
        let i = (n - 1) as usize;
        let b = om.streams@[i as int];
        lemma_kind_position(am, remaining, stream_kind(b));
        let q = kind_position(am, remaining, stream_kind(b));
        if q < remaining.len() {
            let j = remaining[q as int];
            let r2 = remaining.remove(q as int);
            assert forall|m: int| 0 <= m < r2.len() implies (#[trigger] r2[m]) != j && exists|m0: int|
                0 <= m0 < remaining.len() && remaining[m0] == r2[m] by {
                if m < q {
                    assert(r2[m] == remaining[m]);
                } else {
                    assert(r2[m] == remaining[m + 1]);
                }
            }
            let p2 = if is_copied(copy_video, b) && stream_kind(b) != "attachment"@ {
                pairs.push((i, j))
            } else {
                pairs
            };
            assert(match_streams(om, am, copy_video, plan, n).0 == r2);
            assert(match_streams(om, am, copy_video, plan, n).2 == p2);
            assert forall|k: int, l: int| 0 <= k < l < r2.len() implies #[trigger] r2[k] != #[trigger] r2[l] by {
                let (k0, l0) = (if k < q { k } else { k + 1 }, if l < q { l } else { l + 1 });
                assert(r2[k] == remaining[k0] && r2[l] == remaining[l0]);
            }
            assert forall|k: int, m: int| 0 <= k < p2.len() && 0 <= m < r2.len() implies (#[trigger] p2[k]).1
                != #[trigger] r2[m] by {
                let m0 = if m < q { m } else { m + 1 };
                assert(r2[m] == remaining[m0]);
                if k < pairs.len() {
                    assert(p2[k] == pairs[k]);
                }
            }
            assert forall|k: int, l: int| 0 <= k < l < p2.len() implies (#[trigger] p2[k]).0 < (#[trigger] p2[l]).0 by {
                assert(p2[k] == pairs[k]);
                if l < pairs.len() {
                    assert(p2[l] == pairs[l]);
                }
            }
            assert forall|k: int, l: int| 0 <= k < l < p2.len() implies (#[trigger] p2[k]).1 != (#[trigger] p2[l]).1 by {
                if l == pairs.len() {
                    assert(p2[k] == pairs[k]);
                    assert(pairs[k].1 != remaining[q as int]);
                }
            }
        }
    }
}

/// Stream matching pairs like with like: every pair whose packets are compared joins
/// an input stream and an output stream of the same kind; pairs follow the input's
/// stream order; no output stream is paired twice; and the output streams left over,
/// which are reported as added, are distinct and none of them is paired.
pub proof fn law_streams_pair_by_kind(om: MediaInfo, am: MediaInfo, copy_video: bool, plan: TranscodePlan)
    requires
        om.streams@.len() <= usize::MAX,
        am.streams@.len() <= usize::MAX,
    ensures
        sound_matching(
            om,
            am,
            match_streams(om, am, copy_video, plan, om.streams@.len()).0,
            structure_comparison(om, am, copy_video, plan).1,
            om.streams@.len(),
        ),
{
    lemma_matching_sound(om, am, copy_video, plan, om.streams@.len());
}

/// The input indices of the streams written back as attachments, in input order:
/// attached pictures in Matroska, and Matroska attachments around an encode.
pub open spec fn attached_indices(c: Container, e: Option<VideoEncoding>, ss: Seq<MediaStream>) -> Seq<usize>
    decreases ss.len(),
{
    if ss.len() == 0 {
        seq![]
    } else {
        let r = attached_indices(c, e, ss.drop_last());
        let s = ss.last();
        if is_cover_attachment(c, s) || is_native_attachment(c, e, s) {
            r.push(s.index)
        } else {
            r
        }
    }
}

/// Planning maps every stream but the attachments, in input order, and collects the
/// attachments in input order: after the streams `ss`, the attachments are those of
/// the start followed by `attached_indices`, and the mapped count grew by the other
/// streams. Outside Matroska nothing is attached.
pub proof fn law_plan_attaches_in_input_order(
    c: Container,
    e: Option<VideoEncoding>,
    d: DecodingBackend,
    m: MediaInfo,
    formats: Seq<Seq<char>>,
    init: PlanState,
    ss: Seq<MediaStream>,
)
    ensures
        plan_streams(c, e, d, m, formats, init, ss) matches Ok(st) ==> {
            &&& st.2.map_values(|a: (usize, AttachmentInput, Seq<(Seq<char>, Seq<char>)>)| a.0) == init.2.map_values(
                |a: (usize, AttachmentInput, Seq<(Seq<char>, Seq<char>)>)| a.0,
            ) + attached_indices(c, e, ss)
            &&& st.5 == init.5 + ss.len() - attached_indices(c, e, ss).len()
        },
        c != Container::Matroska ==> attached_indices(c, e, ss) == Seq::<usize>::empty(),
    decreases ss.len(),
{
    reveal(plan_step);
    if ss.len() > 0 {
        law_plan_attaches_in_input_order(c, e, d, m, formats, init, ss.drop_last());
        let first = attached_indices(c, e, ss.drop_last());
        assert(attached_indices(c, e, ss.drop_last()).len() <= ss.drop_last().len()) by {
            lemma_attached_bound(c, e, ss.drop_last());
        }
        match plan_streams(c, e, d, m, formats, init, ss.drop_last()) {
            Ok(st) => {
                let f = |a: (usize, AttachmentInput, Seq<(Seq<char>, Seq<char>)>)| a.0;
                let s = ss.last();
                if is_cover_attachment(c, s) {
                    let st2 = plan_step(c, e, d, m, formats, st, s);
                    assert(st2->Ok_0.2.map_values(f) =~= st.2.map_values(f).push(s.index));
                    assert(init.2.map_values(f) + first.push(s.index) =~= (init.2.map_values(f) + first).push(s.index));
                } else if is_native_attachment(c, e, s) {
                    let st2 = plan_step(c, e, d, m, formats, st, s);
                    assert(st2->Ok_0.2.map_values(f) =~= st.2.map_values(f).push(s.index));
                    assert(init.2.map_values(f) + first.push(s.index) =~= (init.2.map_values(f) + first).push(s.index));
                }
            },
            Err(_) => {},
        }
    }
}

proof fn lemma_attached_bound(c: Container, e: Option<VideoEncoding>, ss: Seq<MediaStream>)
    ensures
        attached_indices(c, e, ss).len() <= ss.len(),
    decreases ss.len(),
{
    if ss.len() > 0 {
        lemma_attached_bound(c, e, ss.drop_last());
    }
}

/// An input is written back in a container exactly when ffprobe's demuxer list names,
/// as a whole comma-separated token, one of the demuxers a container is known by.
pub proof fn law_known_demuxers_choose_a_container(path: Seq<char>, format: Seq<char>)
    ensures
        input_container(path, format) is Some <==> (lists_format(format, "mpegts"@) || lists_format(
            format,
            "matroska"@,
        ) || lists_format(format, "webm"@) || lists_format(format, "mov"@) || lists_format(format, "mp4"@)
            || lists_format(format, "m4a"@) || lists_format(format, "3gp"@) || lists_format(format, "3g2"@)
            || lists_format(format, "mj2"@) || lists_format(format, "avi"@) || lists_format(format, "flv"@)
            || lists_format(format, "asf"@) || lists_format(format, "mpeg"@) || lists_format(format, "ogg"@)),
{
}

/// Exactly the encoder names the forms offer parse when no device is given, and an
/// encoding parsed from a name reports that name.
pub proof fn law_encoder_names_parse(v: Seq<char>)
    requires
        forall|k: int| 0 <= k < v.len() ==> v[k] != '=',
    ensures
        encoder_parse_error(v) is None <==> preset_labels(v) is Some,
        forall|e: VideoEncoding| parsed_encoding(v, e) ==> encoding_name(e) == v,
{
    reveal_strlit("h264");
    reveal_strlit("hevc");
    reveal_strlit("av1");
    reveal_strlit("nvenc");
    reveal_strlit("qsv");
    reveal_strlit("vaapi");
    reveal_strlit("h264_nvenc");
    reveal_strlit("hevc_nvenc");
    reveal_strlit("av1_nvenc");
    reveal_strlit("h264_qsv");
    reveal_strlit("hevc_qsv");
    reveal_strlit("av1_qsv");
    reveal_strlit("h264_vaapi");
    reveal_strlit("hevc_vaapi");
    reveal_strlit("av1_vaapi");
    lemma_split_absent(v, '=');
    if preset_labels(v) is Some {
        lemma_offered_names(v);
    }
    if encoder_parse_error(v) is None {
        if let Some((codec, backend)) = split_once(v, '_') {
            crate::text::lemma_split_once_join(v, '_');
            assert(v =~= codec + seq!['_'] + backend);
            if codec == "h264"@ && backend == "nvenc"@ {
                assert(v =~= "h264_nvenc"@);
            }
            if codec == "hevc"@ && backend == "nvenc"@ {
                assert(v =~= "hevc_nvenc"@);
            }
            if codec == "av1"@ && backend == "nvenc"@ {
                assert(v =~= "av1_nvenc"@);
            }
            if codec == "h264"@ && backend == "qsv"@ {
                assert(v =~= "h264_qsv"@);
            }
            if codec == "hevc"@ && backend == "qsv"@ {
                assert(v =~= "hevc_qsv"@);
            }
            if codec == "av1"@ && backend == "qsv"@ {
                assert(v =~= "av1_qsv"@);
            }
            if codec == "h264"@ && backend == "vaapi"@ {
                assert(v =~= "h264_vaapi"@);
            }
            if codec == "hevc"@ && backend == "vaapi"@ {
                assert(v =~= "hevc_vaapi"@);
            }
            if codec == "av1"@ && backend == "vaapi"@ {
                assert(v =~= "av1_vaapi"@);
            }
        }
    }
}

proof fn lemma_digit_reads_back(k: nat)
    requires
        k < 10,
    ensures
        is_digit(crate::text::digit_char(k)),
        crate::text::digit_value(crate::text::digit_char(k)) == k,
{
    let c = crate::text::digit_char(k);
    assert(c as int == k + 48);
}

/// The decimal notation of a number reads back as that number.
pub proof fn lemma_decimal_reads_back(n: nat)
    ensures
        decimal(n).len() > 0,
        decimal(n)[0] != '+',
        all_digits(decimal(n)),
        digits_value(decimal(n)) == n,
    decreases n,
{
    lemma_digit_reads_back(n % 10);
    let d = decimal(n);
    if n >= 10 {
        lemma_decimal_reads_back(n / 10);
        assert(d.drop_last() =~= decimal(n / 10));
        assert(d.last() == crate::text::digit_char(n % 10));
        assert(digits_value(d) == digits_value(decimal(n / 10)) * 10 + crate::text::digit_value(
            crate::text::digit_char(n % 10),
        ));
        assert(d[0] == decimal(n / 10)[0]);
        assert forall|i: int| 0 <= i < d.len() implies is_digit(#[trigger] d[i]) by {
            if i < d.len() - 1 {
                assert(d[i] == decimal(n / 10)[i]);
            }
        }
    } else {
        assert(d.drop_last() =~= Seq::<char>::empty());
        assert(digits_value(d) == digits_value(Seq::<char>::empty()) * 10 + crate::text::digit_value(d.last()));
    }
}

/// The numeric speed knobs read back in decimal: setting SVT-AV1's preset, AV1's
/// `cpu-used` or rav1e's speed from the decimal notation of a value in its range
/// stores that value, which the preset then reads as the same text; the rate control
/// is kept.
pub proof fn law_numeric_presets_read_back(e: VideoEncoding, n: u8)
    requires
        (e is SvtAv1 && n <= 13) || (e is AomAv1 && n <= 8) || (e is Rav1e && n <= 10),
    ensures
        preset_update(e, decimal(n as nat)) matches Ok(f) && preset_of(f) == Some(decimal(n as nat))
            && encoding_rate(f) == encoding_rate(e),
{
    lemma_decimal_reads_back(n as nat);
    assert(crate::text::unsigned_digits(decimal(n as nat)) == decimal(n as nat));
    assert(crate::text::parse_unsigned(decimal(n as nat), 255) == Some(n as nat));
}

/// A built plan re-attaches the attached streams in input order, the k-th at output
/// index (streams mapped) + k, where every stream but the attached ones is mapped;
/// and it sets the M2TS packet mode exactly when it writes M2TS.
pub proof fn law_built_plan_places_attachments(
    p: TranscodePlan,
    r: TranscodeRequest,
    m: MediaInfo,
    c: Container,
    formats: Seq<Seq<char>>,
    st: PlanState,
)
    requires
        planned(r, m, c, formats) == Ok::<PlanState, (usize, Option<Seq<char>>)>(st),
        plan_from_state(p, r, m, c, st),
    ensures
        p.attachments@.len() == attached_indices(c, active_encoding_of(r, m), m.streams@).len(),
        forall|k: int|
            0 <= k < p.attachments@.len() ==> (#[trigger] p.attachments@[k]).input_index == attached_indices(
                c,
                active_encoding_of(r, m),
                m.streams@,
            )[k] && p.attachments@[k].output_index == m.streams@.len() - attached_indices(
                c,
                active_encoding_of(r, m),
                m.streams@,
            ).len() + k,
        (c == Container::M2ts) <==> trailing_args(c, active_encoding_of(r, m), st.4).contains("-mpegts_m2ts_mode"@),
{
    let e = active_encoding_of(r, m);
    let init = initial_state(r, e);
    law_plan_attaches_in_input_order(c, e, r.decoding, m, formats, init, m.streams@);
    let f = |a: (usize, AttachmentInput, Seq<(Seq<char>, Seq<char>)>)| a.0;
    assert(init.2.map_values(f) =~= Seq::<usize>::empty());
    assert(st.2.map_values(f) =~= attached_indices(c, e, m.streams@));
    assert forall|k: int| 0 <= k < p.attachments@.len() implies (#[trigger] p.attachments@[k]).input_index
        == attached_indices(c, e, m.streams@)[k] by {
        assert(st.2.map_values(f)[k] == st.2[k].0);
    }
    reveal_strlit("-mpegts_m2ts_mode");
    reveal_strlit("-max_interleave_delta");
    reveal_strlit("0");
    reveal_strlit("1");
    let t = trailing_args(c, e, st.4);
    if c == Container::M2ts {
        assert(t[t.len() - 2] == "-mpegts_m2ts_mode"@);
    } else {
        assert("-mpegts_m2ts_mode"@.len() == 17 && "-max_interleave_delta"@.len() == 21 && "0"@.len() == 1);
        if t.contains("-mpegts_m2ts_mode"@) {
            let w = choose|w: int| 0 <= w < t.len() && t[w] == "-mpegts_m2ts_mode"@;
            assert(t[w].len() == 17);
        }
    }
}

/// Whether every finished line is non-empty and holds no line break, and the
/// unfinished tail holds none either.
pub open spec fn clean_lines(st: (Seq<Seq<char>>, Seq<char>)) -> bool {
    &&& forall|k: int| 0 <= k < st.0.len() ==> (#[trigger] st.0[k]).len() > 0 && forall|i: int|
        0 <= i < st.0[k].len() ==> !is_line_break(#[trigger] st.0[k][i])
    &&& forall|i: int| 0 <= i < st.1.len() ==> !is_line_break(#[trigger] st.1[i])
}

proof fn lemma_scan_clean(st: (Seq<Seq<char>>, Seq<char>), s: Seq<char>)
    requires
        clean_lines(st),
    ensures
        clean_lines(scan_from(st, s)),
    decreases s.len(),
{
    if s.len() > 0 {
        lemma_scan_clean(st, s.drop_last());
        let (done, cur) = scan_from(st, s.drop_last());
        let c = s.last();
        if is_line_break(c) {
            if cur.len() > 0 {
                assert forall|k: int| 0 <= k < done.push(cur).len() implies (#[trigger] done.push(cur)[k]).len() > 0
                    && forall|i: int| 0 <= i < done.push(cur)[k].len() ==> !is_line_break(#[trigger] done.push(cur)[k][i]) by {
                    if k < done.len() {
                        assert(done.push(cur)[k] == done[k]);
                    }
                }
            }
        } else {
            assert forall|i: int| 0 <= i < cur.push(c).len() implies !is_line_break(#[trigger] cur.push(c)[i]) by {
                if i < cur.len() {
                    assert(cur.push(c)[i] == cur[i]);
                }
            }
        }
    }
}

/// FFmpeg's output is split at every carriage return and line feed: each finished
/// line is non-empty and holds neither, and neither does the unfinished tail.
pub proof fn law_output_splits_at_every_break(s: Seq<char>)
    ensures
        clean_lines(scan_lines(s)),
{
    lemma_scan_clean((seq![], seq![]), s);
}

/// Filter paths are escaped character by character: the escape of two pieces put
/// together is the escape of the first followed by the escape of the second, and
/// only backslashes, quotes and colons change.
pub proof fn law_filter_path_escapes_each_character(a: Seq<char>, b: Seq<char>)
    ensures
        escaped_chars(a + b) == escaped_chars(a) + escaped_chars(b),
        forall|c: char| c != '\\' && c != '\'' && c != ':' ==> #[trigger] escaped_chars(seq![c]) == seq![c],
    decreases b.len(),
{
    assert forall|c: char| c != '\\' && c != '\'' && c != ':' implies #[trigger] escaped_chars(seq![c]) == seq![c] by {
        assert(seq![c].drop_last() =~= Seq::<char>::empty());
        assert(seq![c].last() == c);
        assert(escaped_chars(Seq::<char>::empty()) =~= Seq::<char>::empty());
        assert(escaped_chars(seq![c]) =~= escaped_chars(Seq::<char>::empty()) + seq![c]);
    }
    if b.len() == 0 {
        assert(a + b =~= a);
        assert(escaped_chars(b) =~= Seq::<char>::empty());
    } else {
        law_filter_path_escapes_each_character(a, b.drop_last());
        assert((a + b).drop_last() =~= a + b.drop_last());
        assert((a + b).last() == b.last());
    }
}

/// Whether every finding of `fs` can be reported: its positions lie within the probes.
pub open spec fn all_fit(om: MediaInfo, am: MediaInfo, plan: TranscodePlan, fs: Seq<Finding>) -> bool {
    forall|k: int| 0 <= k < fs.len() ==> finding_fits(om, am, plan, #[trigger] fs[k])
}

proof fn lemma_fit_concat(om: MediaInfo, am: MediaInfo, plan: TranscodePlan, a: Seq<Finding>, b: Seq<Finding>)
    requires
        all_fit(om, am, plan, a),
        all_fit(om, am, plan, b),
    ensures
        all_fit(om, am, plan, a + b),
{
    assert forall|k: int| 0 <= k < (a + b).len() implies finding_fits(om, am, plan, #[trigger] (a + b)[k]) by {
        if k < a.len() {
            assert((a + b)[k] == a[k]);
        } else {
            assert((a + b)[k] == b[k - a.len()]);
        }
    }
}

proof fn lemma_changed_tags_fit(
    om: MediaInfo,
    am: MediaInfo,
    plan: TranscodePlan,
    scope: Scope,
    before: TagView,
    after: TagView,
    n: nat,
)
    requires
        scope_fits(om, am, scope),
        expected_tags(om, plan, scope) == Some(before),
        actual_tags(am, scope) == Some(after),
    ensures
        all_fit(om, am, plan, changed_tags(scope, before, after, n)),
    decreases n,
{
    if n > 0 && n <= before.len() {
        lemma_changed_tags_fit(om, am, plan, scope, before, after, (n - 1) as nat);
        let k = (n - 1) as nat;
        let tail = if value_ignoring_case(after, before[k as int].0) == Some(before[k as int].1) {
            Seq::<Finding>::empty()
        } else {
            seq![Finding::TagChanged(scope, k as usize)]
        };
        lemma_fit_concat(om, am, plan, changed_tags(scope, before, after, k), tail);
    }
}

proof fn lemma_added_tags_fit(
    om: MediaInfo,
    am: MediaInfo,
    plan: TranscodePlan,
    scope: Scope,
    before: TagView,
    after: TagView,
    n: nat,
)
    requires
        scope_fits(om, am, scope),
        expected_tags(om, plan, scope) == Some(before),
        actual_tags(am, scope) == Some(after),
    ensures
        all_fit(om, am, plan, added_tags(scope, before, after, n)),
    decreases n,
{
    if n > 0 && n <= after.len() {
        lemma_added_tags_fit(om, am, plan, scope, before, after, (n - 1) as nat);
        let k = (n - 1) as nat;
        let tail = if crate::media::has_key_ignoring_case(before, after[k as int].0) {
            Seq::<Finding>::empty()
        } else {
            seq![Finding::TagAdded(scope, k as usize)]
        };
        lemma_fit_concat(om, am, plan, added_tags(scope, before, after, k), tail);
    }
}

proof fn lemma_tags_fit(om: MediaInfo, am: MediaInfo, plan: TranscodePlan, scope: Scope, before: TagView, after: TagView)
    requires
        scope_fits(om, am, scope),
        expected_tags(om, plan, scope) == Some(before),
        actual_tags(am, scope) == Some(after),
    ensures
        all_fit(om, am, plan, tag_findings(scope, before, after)),
{
    lemma_changed_tags_fit(om, am, plan, scope, before, after, before.len());
    lemma_added_tags_fit(om, am, plan, scope, before, after, after.len());
    lemma_fit_concat(
        om,
        am,
        plan,
        changed_tags(scope, before, after, before.len()),
        added_tags(scope, before, after, after.len()),
    );
}

/// Whether every finding of `fs` is a changed field, an unverifiable attachment or an
/// unknown layout, in `scope`.
pub open spec fn scoped_only(fs: Seq<Finding>, scope: Scope) -> bool {
    forall|k: int| 0 <= k < fs.len() ==> match #[trigger] fs[k] {
        Finding::Changed(s, _) => s == scope,
        Finding::AttachmentUnverifiable(s) => s == scope,
        Finding::LayoutUnknown(s) => s == scope,
        _ => false,
    }
}

proof fn lemma_scoped_concat(a: Seq<Finding>, b: Seq<Finding>, scope: Scope)
    requires
        scoped_only(a, scope),
        scoped_only(b, scope),
    ensures
        scoped_only(a + b, scope),
{
    assert forall|k: int| 0 <= k < (a + b).len() implies match #[trigger] (a + b)[k] {
        Finding::Changed(s, _) => s == scope,
        Finding::AttachmentUnverifiable(s) => s == scope,
        Finding::LayoutUnknown(s) => s == scope,
        _ => false,
    } by {
        if k < a.len() {
            assert((a + b)[k] == a[k]);
        } else {
            assert((a + b)[k] == b[k - a.len()]);
        }
    }
}

proof fn lemma_audio_scoped(scope: Scope, b: MediaStream, a: MediaStream)
    ensures
        scoped_only(audio_findings(scope, b, a), scope),
{
    let mut acc = changed_if(opt_view(b.sample_fmt) != opt_view(a.sample_fmt), scope, Field::SampleFmt);
    lemma_scoped_concat(acc, changed_if(opt_view(b.sample_rate) != opt_view(a.sample_rate), scope, Field::SampleRate), scope);
    acc = acc + changed_if(opt_view(b.sample_rate) != opt_view(a.sample_rate), scope, Field::SampleRate);
    lemma_scoped_concat(acc, changed_if(b.channels != a.channels, scope, Field::Channels), scope);
    acc = acc + changed_if(b.channels != a.channels, scope, Field::Channels);
    lemma_scoped_concat(acc, changed_if(opt_view(b.channel_layout) != opt_view(a.channel_layout), scope, Field::ChannelLayout), scope);
    acc = acc + changed_if(opt_view(b.channel_layout) != opt_view(a.channel_layout), scope, Field::ChannelLayout);
    lemma_scoped_concat(acc, changed_if(b.bits_per_sample != a.bits_per_sample, scope, Field::BitsPerSample), scope);
    acc = acc + changed_if(b.bits_per_sample != a.bits_per_sample, scope, Field::BitsPerSample);
    lemma_scoped_concat(acc, changed_if(opt_view(b.bits_per_raw_sample) != opt_view(a.bits_per_raw_sample), scope, Field::BitsPerRawSample), scope);
    acc = acc + changed_if(opt_view(b.bits_per_raw_sample) != opt_view(a.bits_per_raw_sample), scope, Field::BitsPerRawSample);
    assert(acc == audio_findings(scope, b, a));
}

proof fn lemma_video_scoped(scope: Scope, b: MediaStream, a: MediaStream)
    ensures
        scoped_only(video_findings(scope, b, a), scope),
{
    let mut acc = changed_if(b.width != a.width, scope, Field::Width);
    lemma_scoped_concat(acc, changed_if(b.height != a.height, scope, Field::Height), scope);
    acc = acc + changed_if(b.height != a.height, scope, Field::Height);
    lemma_scoped_concat(acc, changed_if(opt_view(b.sample_aspect_ratio) != opt_view(a.sample_aspect_ratio), scope, Field::SampleAspectRatio), scope);
    acc = acc + changed_if(opt_view(b.sample_aspect_ratio) != opt_view(a.sample_aspect_ratio), scope, Field::SampleAspectRatio);
    lemma_scoped_concat(acc, changed_if(opt_view(b.color_range) != opt_view(a.color_range), scope, Field::ColorRange), scope);
    acc = acc + changed_if(opt_view(b.color_range) != opt_view(a.color_range), scope, Field::ColorRange);
    lemma_scoped_concat(acc, changed_if(opt_view(b.color_space) != opt_view(a.color_space), scope, Field::ColorSpace), scope);
    acc = acc + changed_if(opt_view(b.color_space) != opt_view(a.color_space), scope, Field::ColorSpace);
    lemma_scoped_concat(acc, changed_if(opt_view(b.color_transfer) != opt_view(a.color_transfer), scope, Field::ColorTransfer), scope);
    acc = acc + changed_if(opt_view(b.color_transfer) != opt_view(a.color_transfer), scope, Field::ColorTransfer);
    lemma_scoped_concat(acc, changed_if(opt_view(b.color_primaries) != opt_view(a.color_primaries), scope, Field::ColorPrimaries), scope);
    acc = acc + changed_if(opt_view(b.color_primaries) != opt_view(a.color_primaries), scope, Field::ColorPrimaries);
    lemma_scoped_concat(acc, changed_if(opt_view(b.chroma_location) != opt_view(a.chroma_location), scope, Field::ChromaLocation), scope);
    acc = acc + changed_if(opt_view(b.chroma_location) != opt_view(a.chroma_location), scope, Field::ChromaLocation);
    lemma_scoped_concat(acc, changed_if(opt_view(b.field_order) != opt_view(a.field_order), scope, Field::FieldOrder), scope);
    acc = acc + changed_if(opt_view(b.field_order) != opt_view(a.field_order), scope, Field::FieldOrder);
    assert(acc == video_findings(scope, b, a));
}

proof fn lemma_copied_scoped(scope: Scope, b: MediaStream, a: MediaStream)
    ensures
        scoped_only(copied_findings(scope, b, a), scope),
{
    let mut acc = changed_if(opt_view(b.codec_name) != opt_view(a.codec_name), scope, Field::CodecName);
    lemma_scoped_concat(acc, changed_if(b.extradata_size != a.extradata_size, scope, Field::ExtradataSize), scope);
    acc = acc + changed_if(b.extradata_size != a.extradata_size, scope, Field::ExtradataSize);
    lemma_scoped_concat(acc, changed_if(opt_view(b.extradata_hash) != opt_view(a.extradata_hash), scope, Field::ExtradataHash), scope);
    acc = acc + changed_if(opt_view(b.extradata_hash) != opt_view(a.extradata_hash), scope, Field::ExtradataHash);
    let last = if stream_kind(b) == "attachment"@ && (b.extradata_hash is None || a.extradata_hash is None) {
        seq![Finding::AttachmentUnverifiable(scope)]
    } else {
        seq![]
    };
    lemma_scoped_concat(acc, last, scope);
    assert(acc + last == copied_findings(scope, b, a));
}

proof fn lemma_layout_scoped(scope: Scope, om: MediaInfo, am: MediaInfo, b: MediaStream, a: MediaStream)
    ensures
        scoped_only(layout_findings(scope, om, am, b, a), scope),
{
    let src = match stream_descriptor(om, b) {
        Some(p) => samples_of(p),
        None => None,
    };
    let dst = match stream_descriptor(am, a) {
        Some(p) => samples_of(p),
        None => None,
    };
    if let (Some(x), Some(y)) = (src, dst) {
        let mut acc = changed_if(x.0 != y.0, scope, Field::ComponentDepths);
            lemma_scoped_concat(acc, changed_if(x.1 != y.1, scope, Field::Chroma), scope);
            acc = acc + changed_if(x.1 != y.1, scope, Field::Chroma);
            lemma_scoped_concat(acc, changed_if(x.2 != y.2, scope, Field::Alpha), scope);
            acc = acc + changed_if(x.2 != y.2, scope, Field::Alpha);
        assert(acc == layout_findings(scope, om, am, b, a));
    }
}

proof fn lemma_scoped_fit(om: MediaInfo, am: MediaInfo, plan: TranscodePlan, fs: Seq<Finding>, scope: Scope)
    requires
        scoped_only(fs, scope),
        scope is Stream,
        scope_fits(om, am, scope),
    ensures
        all_fit(om, am, plan, fs),
{
    assert forall|k: int| 0 <= k < fs.len() implies finding_fits(om, am, plan, #[trigger] fs[k]) by {
        assert(match fs[k] {
            Finding::Changed(s, _) => s == scope,
            Finding::AttachmentUnverifiable(s) => s == scope,
            Finding::LayoutUnknown(s) => s == scope,
            _ => false,
        });
    }
}

#[verifier::rlimit(40)]
proof fn lemma_pair_fit(om: MediaInfo, am: MediaInfo, copy_video: bool, plan: TranscodePlan, i: usize, j: usize)
    requires
        i < om.streams@.len(),
        j < am.streams@.len(),
    ensures
        all_fit(om, am, plan, pair_findings(om, am, copy_video, plan, i, j)),
{
    let b = om.streams@[i as int];
    let a = am.streams@[j as int];
    let scope = Scope::Stream(i, j);
    let expected = match planned_tags(plan.attachments@, b.index) {
        Some(t) => t,
        None => b.tags.view_pairs(),
    };
    let tags = tag_findings(scope, expected, a.tags.view_pairs());
    lemma_tags_fit(om, am, plan, scope, expected, a.tags.view_pairs());
    let c1 = changed_if(set_flags(b.disposition@) != set_flags(a.disposition@), scope, Field::Disposition);
    let c2 = changed_if(
        sorted_by_type(side_views(b.side_data_list@)) != sorted_by_type(side_views(a.side_data_list@)),
        scope,
        Field::SideData,
    );
    let c3 = if is_copied(copy_video, b) {
        copied_findings(scope, b, a)
    } else {
        seq![]
    };
    let c4 = if opt_view(b.codec_type) == Some("audio"@) {
        audio_findings(scope, b, a)
    } else if opt_view(b.codec_type) == Some("video"@) {
        video_findings(scope, b, a) + layout_findings(scope, om, am, b, a)
    } else {
        seq![]
    };
    lemma_copied_scoped(scope, b, a);
    lemma_audio_scoped(scope, b, a);
    lemma_video_scoped(scope, b, a);
    lemma_layout_scoped(scope, om, am, b, a);
    lemma_scoped_concat(video_findings(scope, b, a), layout_findings(scope, om, am, b, a), scope);
    assert(scoped_only(c3, scope));
    assert(scoped_only(c4, scope));
    assert(scoped_only(c1, scope));
    assert(scoped_only(c2, scope));
    lemma_scoped_fit(om, am, plan, c1, scope);
    lemma_scoped_fit(om, am, plan, c2, scope);
    lemma_scoped_fit(om, am, plan, c3, scope);
    lemma_scoped_fit(om, am, plan, c4, scope);
    lemma_fit_concat(om, am, plan, tags, c1);
    lemma_fit_concat(om, am, plan, tags + c1, c2);
    lemma_fit_concat(om, am, plan, tags + c1 + c2, c3);
    lemma_fit_concat(om, am, plan, tags + c1 + c2 + c3, c4);
}

proof fn lemma_chapter_pairs_fit(om: MediaInfo, am: MediaInfo, plan: TranscodePlan, n: nat)
    requires
        n <= om.chapters@.len(),
        n <= am.chapters@.len(),
        om.chapters@.len() <= usize::MAX,
    ensures
        all_fit(om, am, plan, chapter_pairs(om.chapters@, am.chapters@, n)),
    decreases n,
{
    if n > 0 {
        let k = (n - 1) as nat;
        lemma_chapter_pairs_fit(om, am, plan, k);
        let b = om.chapters@;
        let a = am.chapters@;
        let scope = Scope::Chapter(k as usize);
        assert((k as usize) as int == k);
        assert(scope_fits(om, am, scope));
        assert(expected_tags(om, plan, scope) == Some(b[k as int].tags.view_pairs()));
        assert(actual_tags(am, scope) == Some(a[k as int].tags.view_pairs()));
        let c1 = changed_if(opt_view(b[k as int].start_time) != opt_view(a[k as int].start_time), scope, Field::StartTime);
        let c2 = changed_if(opt_view(b[k as int].end_time) != opt_view(a[k as int].end_time), scope, Field::EndTime);
        let t = tag_findings(scope, b[k as int].tags.view_pairs(), a[k as int].tags.view_pairs());
        lemma_tags_fit(om, am, plan, scope, b[k as int].tags.view_pairs(), a[k as int].tags.view_pairs());
        let head = chapter_pairs(b, a, k);
        lemma_fit_concat(om, am, plan, head, c1);
        lemma_fit_concat(om, am, plan, head + c1, c2);
        lemma_fit_concat(om, am, plan, head + c1 + c2, t);
    }
}

#[verifier::rlimit(40)]
proof fn lemma_matching_fits(om: MediaInfo, am: MediaInfo, copy_video: bool, plan: TranscodePlan, n: nat)
    requires
        n <= om.streams@.len(),
        om.streams@.len() <= usize::MAX,
        am.streams@.len() <= usize::MAX,
    ensures
        all_fit(om, am, plan, match_streams(om, am, copy_video, plan, n).1),
    decreases n,
{
    if n > 0 {
        lemma_matching_fits(om, am, copy_video, plan, (n - 1) as nat);
        lemma_matching_sound(om, am, copy_video, plan, (n - 1) as nat);
        let (remaining, findings, pairs) = match_streams(om, am, copy_video, plan, (n - 1) as nat);
        let i = (n - 1) as usize;
        let b = om.streams@[i as int];
        let q = kind_position(am, remaining, stream_kind(b));
        lemma_kind_position(am, remaining, stream_kind(b));
        if q >= remaining.len() {
            lemma_fit_concat(om, am, plan, findings, seq![Finding::Missing(i)]);
            assert(findings.push(Finding::Missing(i)) == findings + seq![Finding::Missing(i)]);
        } else {
            let j = remaining[q as int];
            lemma_pair_fit(om, am, copy_video, plan, i, j);
            lemma_fit_concat(om, am, plan, findings, pair_findings(om, am, copy_video, plan, i, j));
        }
    }
}

/// Every finding the structural comparison reports can be reported: the positions
/// it names lie within the two probes and their tags, so `warning` accepts it.
pub proof fn law_findings_can_be_reported(om: MediaInfo, am: MediaInfo, copy_video: bool, plan: TranscodePlan)
    requires
        om.streams@.len() <= usize::MAX,
        am.streams@.len() <= usize::MAX,
        om.chapters@.len() <= usize::MAX,
    ensures
        all_fit(om, am, plan, structure_comparison(om, am, copy_video, plan).0),
{
    let n = om.streams@.len();
    lemma_tags_fit(om, am, plan, Scope::Container, om.format.tags.view_pairs(), am.format.tags.view_pairs());
    let t = tag_findings(Scope::Container, om.format.tags.view_pairs(), am.format.tags.view_pairs());
    let d = changed_if(opt_view(om.format.duration) != opt_view(am.format.duration), Scope::Container, Field::Duration);
    let p = changed_if(
        program_views(om.programs@) != program_views(am.programs@),
        Scope::Container,
        Field::ProgramMetadata,
    );
    lemma_fit_concat(om, am, plan, t, d);
    lemma_fit_concat(om, am, plan, t + d, p);
    let m = if om.chapters@.len() <= am.chapters@.len() {
        om.chapters@.len()
    } else {
        am.chapters@.len()
    };
    lemma_chapter_pairs_fit(om, am, plan, m);
    let cc = changed_if(om.chapters@.len() != am.chapters@.len(), Scope::Chapters, Field::Count);
    lemma_fit_concat(om, am, plan, cc, chapter_pairs(om.chapters@, am.chapters@, m));
    let cont = container_findings(om, am);
    let chap = chapter_findings(om, am);
    lemma_fit_concat(om, am, plan, cont, chap);
    lemma_matching_fits(om, am, copy_video, plan, n);
    lemma_matching_sound(om, am, copy_video, plan, n);
    let (remaining, findings, pairs) = match_streams(om, am, copy_video, plan, n);
    lemma_fit_concat(om, am, plan, cont + chap, findings);
    assert(all_fit(om, am, plan, added_streams(remaining)));
    lemma_fit_concat(om, am, plan, cont + chap + findings, added_streams(remaining));
}

/// Encoder help is refused exactly when none of its lines is an encoder heading.
pub proof fn law_help_without_heading_is_refused(ls: Seq<Seq<char>>)
    ensures
        first_heading(ls) is None <==> forall|i: int| 0 <= i < ls.len() ==> (#[trigger] heading_name(ls[i])) is None,
    decreases ls.len(),
{
    if ls.len() > 0 {
        law_help_without_heading_is_refused(ls.drop_first());
        assert forall|i: int| 0 < i < ls.len() implies #[trigger] heading_name(ls[i]) == heading_name(
            ls.drop_first()[i - 1],
        ) by {}
        if first_heading(ls) is None {
            assert forall|i: int| 0 <= i < ls.len() implies (#[trigger] heading_name(ls[i])) is None by {
                if i > 0 {
                    assert(heading_name(ls.drop_first()[i - 1]) is None);
                }
            }
        } else if heading_name(ls[0]) is None {
            let i = choose|i: int| 0 <= i < ls.drop_first().len() && (#[trigger] heading_name(ls.drop_first()[i])) is Some;
            assert(heading_name(ls[i + 1]) is Some);
        }
    }
}

/// The pixel-format list of encoder help is absent exactly when no line, trimmed,
/// starts with `Supported pixel formats:`.
pub proof fn law_formats_absent_when_unlisted(ls: Seq<Seq<char>>)
    ensures
        first_formats(ls) is None <==> forall|i: int| 0 <= i < ls.len() ==> (#[trigger] listed_formats(ls[i])) is None,
    decreases ls.len(),
{
    if ls.len() > 0 {
        law_formats_absent_when_unlisted(ls.drop_first());
        assert forall|i: int| 0 < i < ls.len() implies #[trigger] listed_formats(ls[i]) == listed_formats(
            ls.drop_first()[i - 1],
        ) by {}
        if first_formats(ls) is None {
            assert forall|i: int| 0 <= i < ls.len() implies (#[trigger] listed_formats(ls[i])) is None by {
                if i > 0 {
                    assert(listed_formats(ls.drop_first()[i - 1]) is None);
                }
            }
        } else if listed_formats(ls[0]) is None {
            let i = choose|i: int| 0 <= i < ls.drop_first().len() && (#[trigger] listed_formats(ls.drop_first()[i])) is Some;
            assert(listed_formats(ls[i + 1]) is Some);
        }
    }
}

/// The VAAPI and QSV surface format depends on the sample layout alone: two pixel
/// formats with the same layout, when the table has a surface format for it, get
/// the same one; and a format with alpha, or one that is not YUV, keeps its own name.
pub proof fn law_surface_follows_layout(a: PixelFormat, b: PixelFormat)
    requires
        samples_of(a) == samples_of(b),
    ensures
        (samples_of(a) matches Some((d, Chroma::Yuv { log2_width, log2_height }, false)) && surface_format(
            log2_width,
            log2_height,
            d,
        ) is Some) ==> surface_target(a) == surface_target(b),
        (samples_of(a) matches Some((_, c, alpha)) && (alpha || !(c is Yuv))) ==> surface_target(a) == a.name@,
        samples_of(a) is None ==> surface_target(a) == a.name@,
{
}

/// Each surface format in the table stands for exactly one subsampling and depth.
pub proof fn law_surface_formats_are_distinct(w1: u8, h1: u8, d1: Seq<u8>, w2: u8, h2: u8, d2: Seq<u8>)
    requires
        surface_format(w1, h1, d1) is Some,
        surface_format(w1, h1, d1) == surface_format(w2, h2, d2),
    ensures
        w1 == w2 && h1 == h2 && d1 == d2,
{
    reveal_strlit("nv12");
    reveal_strlit("yuyv422");
    reveal_strlit("vuyx");
    reveal_strlit("p010le");
    reveal_strlit("y210le");
    reveal_strlit("xv30le");
    reveal_strlit("p012le");
    reveal_strlit("y212le");
    reveal_strlit("xv36le");
    assert("nv12"@.len() == 4 && "nv12"@[0] == 'n');
    assert("vuyx"@.len() == 4 && "vuyx"@[0] == 'v');
    assert("yuyv422"@.len() == 7);
    assert("p010le"@.len() == 6 && "p010le"@[0] == 'p' && "p010le"@[3] == '0');
    assert("p012le"@.len() == 6 && "p012le"@[0] == 'p' && "p012le"@[3] == '2');
    assert("y210le"@.len() == 6 && "y210le"@[0] == 'y' && "y210le"@[3] == '0');
    assert("y212le"@.len() == 6 && "y212le"@[0] == 'y' && "y212le"@[3] == '2');
    assert("xv30le"@.len() == 6 && "xv30le"@[0] == 'x' && "xv30le"@[3] == '0');
    assert("xv36le"@.len() == 6 && "xv36le"@[0] == 'x' && "xv36le"@[3] == '6');
}

} // verus!
