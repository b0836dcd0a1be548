//! Laws that tie each reported difference, command-line option, progress field and
//! duration field to the very value it is about.
use vstd::prelude::*;
use crate::compare::{
    added_streams, kind_position, match_streams, structure_comparison, audio_findings, chapter_findings, chapter_pairs, container_findings, program_views, changed_if, changed_tags, added_tags, copied_findings, is_copied, layout_findings, pair_findings,
    set_flags, side_views, sorted_by_type, tag_findings, video_findings, Field, Finding, Scope,
};
use crate::media::{has_key_ignoring_case, opt_view, Chapter, MediaInfo, MediaStream};
use crate::compare::value_ignoring_case;
use crate::compare::TagView;
use crate::plan::{PlannedAttachment, TranscodePlan};
use crate::commands::{attach_args, attachment_path, cover_jobs, dump_args, metadata_args, transcode_args};
use crate::plan::AttachmentInput;
use crate::args::string_views;
use crate::text::{all_digits, decimal, digit_char, digits_value};
use crate::format::{as_double, duration_text, round_half_even, shift_of, size_text, tenths, two_digits};
use crate::warning::{quoted, scope_text, warning_text};
use crate::progress::{i64_value, key_value, progress_step, text_view, u64_value, without_x, Progress};

verus! {

/// A finding is in a concatenation exactly when it is in one of its parts.
pub proof fn lemma_contains_concat(a: Seq<Finding>, b: Seq<Finding>, x: Finding)
    ensures
        (a + b).contains(x) <==> a.contains(x) || b.contains(x),
{
    if a.contains(x) {
        let i = choose|i: int| 0 <= i < a.len() && a[i] == x;
        assert((a + b)[i] == x);
    }
    if b.contains(x) {
        let i = choose|i: int| 0 <= i < b.len() && b[i] == x;
        assert((a + b)[a.len() + i] == x);
    }
    if (a + b).contains(x) {
        let i = choose|i: int| 0 <= i < (a + b).len() && (a + b)[i] == x;
        if i < a.len() {
            assert(a[i] == x);
        } else {
            assert(b[i - a.len()] == x);
        }
    }
}

/// A conditional finding holds exactly its one finding when the condition holds.
pub proof fn lemma_changed_if_contains(d: bool, s: Scope, g: Field, x: Finding)
    ensures
        changed_if(d, s, g).contains(x) <==> (d && x == Finding::Changed(s, g)),
{
    if d {
        assert(changed_if(d, s, g)[0] == Finding::Changed(s, g));
    }
}

proof fn lemma_changed_tags_only_tags(s: Scope, b: TagView, a: TagView, n: nat, t: Scope, g: Field)
    ensures
        !changed_tags(s, b, a, n).contains(Finding::Changed(t, g)),
    decreases n,
{
    if n > 0 && n <= b.len() {
        lemma_changed_tags_only_tags(s, b, a, (n - 1) as nat, t, g);
        let k = (n - 1) as nat;
        let tail = if crate::compare::value_ignoring_case(a, b[k as int].0) == Some(b[k as int].1) {
            Seq::<Finding>::empty()
        } else {
            seq![Finding::TagChanged(s, k as usize)]
        };
        assert(!tail.contains(Finding::Changed(t, g))) by {
            if tail.len() > 0 {
                assert(tail[0] != Finding::Changed(t, g));
            }
        }
        lemma_contains_concat(changed_tags(s, b, a, k), tail, Finding::Changed(t, g));
        assert(changed_tags(s, b, a, n) == changed_tags(s, b, a, k) + tail);
    }
}

proof fn lemma_added_tags_only_tags(s: Scope, b: TagView, a: TagView, n: nat, t: Scope, g: Field)
    ensures
        !added_tags(s, b, a, n).contains(Finding::Changed(t, g)),
    decreases n,
{
    if n > 0 && n <= a.len() {
        lemma_added_tags_only_tags(s, b, a, (n - 1) as nat, t, g);
        let k = (n - 1) as nat;
        let tail = if crate::media::has_key_ignoring_case(b, a[k as int].0) {
            Seq::<Finding>::empty()
        } else {
            seq![Finding::TagAdded(s, k as usize)]
        };
        assert(!tail.contains(Finding::Changed(t, g))) by {
            if tail.len() > 0 {
                assert(tail[0] != Finding::Changed(t, g));
            }
        }
        lemma_contains_concat(added_tags(s, b, a, k), tail, Finding::Changed(t, g));
        assert(added_tags(s, b, a, n) == added_tags(s, b, a, k) + tail);
    }
}

/// Tags never report a changed field.
proof fn lemma_tags_only_tags(s: Scope, b: TagView, a: TagView, g: Field)
    ensures
        !tag_findings(s, b, a).contains(Finding::Changed(s, g)),
{
    lemma_changed_tags_only_tags(s, b, a, b.len(), s, g);
    lemma_added_tags_only_tags(s, b, a, a.len(), s, g);
    lemma_contains_concat(changed_tags(s, b, a, b.len()), added_tags(s, b, a, a.len()), Finding::Changed(s, g));
}

proof fn lemma_layout_only_layout(s: Scope, om: MediaInfo, am: MediaInfo, b: MediaStream, a: MediaStream, g: Field)
    requires
        g != Field::ComponentDepths && g != Field::Chroma && g != Field::Alpha,
    ensures
        !layout_findings(s, om, am, b, a).contains(Finding::Changed(s, g)),
{
    let x = Finding::Changed(s, g);
    let src = match crate::media::stream_descriptor(om, b) {
        Some(p) => crate::media::samples_of(p),
        None => None,
    };
    let dst = match crate::media::stream_descriptor(am, a) {
        Some(p) => crate::media::samples_of(p),
        None => None,
    };
    match (src, dst) {
        (Some(u), Some(v)) => {
            lemma_changed_if_contains(u.0 != v.0, s, Field::ComponentDepths, x);
            lemma_changed_if_contains(u.1 != v.1, s, Field::Chroma, x);
            lemma_changed_if_contains(u.2 != v.2, s, Field::Alpha, x);
            lemma_contains_concat(
                changed_if(u.0 != v.0, s, Field::ComponentDepths),
                changed_if(u.1 != v.1, s, Field::Chroma),
                x,
            );
            lemma_contains_concat(
                changed_if(u.0 != v.0, s, Field::ComponentDepths) + changed_if(u.1 != v.1, s, Field::Chroma),
                changed_if(u.2 != v.2, s, Field::Alpha),
                x,
            );
        },
        _ => {
            assert(seq![Finding::LayoutUnknown(s)][0] != x);
        },
    }
}

pub open spec fn is_video_field(g: Field) -> bool {
    g == Field::Width || g == Field::Height || g == Field::SampleAspectRatio || g == Field::ColorRange || g
        == Field::ColorSpace || g == Field::ColorTransfer || g == Field::ColorPrimaries || g == Field::ChromaLocation
        || g == Field::FieldOrder
}

pub open spec fn is_audio_field(g: Field) -> bool {
    g == Field::SampleFmt || g == Field::SampleRate || g == Field::Channels || g == Field::ChannelLayout || g
        == Field::BitsPerSample || g == Field::BitsPerRawSample
}

pub open spec fn is_copy_field(g: Field) -> bool {
    g == Field::CodecName || g == Field::ExtradataSize || g == Field::ExtradataHash
}

proof fn lemma_video_contains(s: Scope, b: MediaStream, a: MediaStream, x: Finding)
    ensures
        video_findings(s, b, a).contains(x) <==> (b.width != a.width && x == Finding::Changed(s, Field::Width))
            || (b.height != a.height && x == Finding::Changed(s, Field::Height))
            || (opt_view(b.sample_aspect_ratio) != opt_view(a.sample_aspect_ratio) && x == Finding::Changed(s, Field::SampleAspectRatio))
            || (opt_view(b.color_range) != opt_view(a.color_range) && x == Finding::Changed(s, Field::ColorRange))
            || (opt_view(b.color_space) != opt_view(a.color_space) && x == Finding::Changed(s, Field::ColorSpace))
            || (opt_view(b.color_transfer) != opt_view(a.color_transfer) && x == Finding::Changed(s, Field::ColorTransfer))
            || (opt_view(b.color_primaries) != opt_view(a.color_primaries) && x == Finding::Changed(s, Field::ColorPrimaries))
            || (opt_view(b.chroma_location) != opt_view(a.chroma_location) && x == Finding::Changed(s, Field::ChromaLocation))
            || (opt_view(b.field_order) != opt_view(a.field_order) && x == Finding::Changed(s, Field::FieldOrder)),
{
    let c0 = changed_if(b.width != a.width, s, Field::Width);
    lemma_changed_if_contains(b.width != a.width, s, Field::Width, x);
    let c1 = changed_if(b.height != a.height, s, Field::Height);
    lemma_changed_if_contains(b.height != a.height, s, Field::Height, x);
    let c2 = changed_if(opt_view(b.sample_aspect_ratio) != opt_view(a.sample_aspect_ratio), s, Field::SampleAspectRatio);
    lemma_changed_if_contains(opt_view(b.sample_aspect_ratio) != opt_view(a.sample_aspect_ratio), s, Field::SampleAspectRatio, x);
    let c3 = changed_if(opt_view(b.color_range) != opt_view(a.color_range), s, Field::ColorRange);
    lemma_changed_if_contains(opt_view(b.color_range) != opt_view(a.color_range), s, Field::ColorRange, x);
    let c4 = changed_if(opt_view(b.color_space) != opt_view(a.color_space), s, Field::ColorSpace);
    lemma_changed_if_contains(opt_view(b.color_space) != opt_view(a.color_space), s, Field::ColorSpace, x);
    let c5 = changed_if(opt_view(b.color_transfer) != opt_view(a.color_transfer), s, Field::ColorTransfer);
    lemma_changed_if_contains(opt_view(b.color_transfer) != opt_view(a.color_transfer), s, Field::ColorTransfer, x);
    let c6 = changed_if(opt_view(b.color_primaries) != opt_view(a.color_primaries), s, Field::ColorPrimaries);
    lemma_changed_if_contains(opt_view(b.color_primaries) != opt_view(a.color_primaries), s, Field::ColorPrimaries, x);
    let c7 = changed_if(opt_view(b.chroma_location) != opt_view(a.chroma_location), s, Field::ChromaLocation);
    lemma_changed_if_contains(opt_view(b.chroma_location) != opt_view(a.chroma_location), s, Field::ChromaLocation, x);
    let c8 = changed_if(opt_view(b.field_order) != opt_view(a.field_order), s, Field::FieldOrder);
    lemma_changed_if_contains(opt_view(b.field_order) != opt_view(a.field_order), s, Field::FieldOrder, x);
    let p0 = c0;
    let p1 = p0 + c1;
    lemma_contains_concat(p0, c1, x);
    let p2 = p1 + c2;
    lemma_contains_concat(p1, c2, x);
    let p3 = p2 + c3;
    lemma_contains_concat(p2, c3, x);
    let p4 = p3 + c4;
    lemma_contains_concat(p3, c4, x);
    let p5 = p4 + c5;
    lemma_contains_concat(p4, c5, x);
    let p6 = p5 + c6;
    lemma_contains_concat(p5, c6, x);
    let p7 = p6 + c7;
    lemma_contains_concat(p6, c7, x);
    let p8 = p7 + c8;
    lemma_contains_concat(p7, c8, x);
    assert(video_findings(s, b, a) == p8);
}

proof fn lemma_video_group(s: Scope, b: MediaStream, a: MediaStream)
    ensures
        video_findings(s, b, a).contains(Finding::Changed(s, Field::Width)) <==> b.width != a.width,
        video_findings(s, b, a).contains(Finding::Changed(s, Field::Height)) <==> b.height != a.height,
        video_findings(s, b, a).contains(Finding::Changed(s, Field::SampleAspectRatio)) <==> opt_view(b.sample_aspect_ratio) != opt_view(a.sample_aspect_ratio),
        video_findings(s, b, a).contains(Finding::Changed(s, Field::ColorRange)) <==> opt_view(b.color_range) != opt_view(a.color_range),
        video_findings(s, b, a).contains(Finding::Changed(s, Field::ColorSpace)) <==> opt_view(b.color_space) != opt_view(a.color_space),
        video_findings(s, b, a).contains(Finding::Changed(s, Field::ColorTransfer)) <==> opt_view(b.color_transfer) != opt_view(a.color_transfer),
        video_findings(s, b, a).contains(Finding::Changed(s, Field::ColorPrimaries)) <==> opt_view(b.color_primaries) != opt_view(a.color_primaries),
        video_findings(s, b, a).contains(Finding::Changed(s, Field::ChromaLocation)) <==> opt_view(b.chroma_location) != opt_view(a.chroma_location),
        video_findings(s, b, a).contains(Finding::Changed(s, Field::FieldOrder)) <==> opt_view(b.field_order) != opt_view(a.field_order),
        forall|g: Field| #[trigger] video_findings(s, b, a).contains(Finding::Changed(s, g)) ==> is_video_field(g),
{
    lemma_video_contains(s, b, a, Finding::Changed(s, Field::Width));
    lemma_video_contains(s, b, a, Finding::Changed(s, Field::Height));
    lemma_video_contains(s, b, a, Finding::Changed(s, Field::SampleAspectRatio));
    lemma_video_contains(s, b, a, Finding::Changed(s, Field::ColorRange));
    lemma_video_contains(s, b, a, Finding::Changed(s, Field::ColorSpace));
    lemma_video_contains(s, b, a, Finding::Changed(s, Field::ColorTransfer));
    lemma_video_contains(s, b, a, Finding::Changed(s, Field::ColorPrimaries));
    lemma_video_contains(s, b, a, Finding::Changed(s, Field::ChromaLocation));
    lemma_video_contains(s, b, a, Finding::Changed(s, Field::FieldOrder));
    assert forall|g: Field| #[trigger] video_findings(s, b, a).contains(Finding::Changed(s, g)) implies is_video_field(g) by {
        lemma_video_contains(s, b, a, Finding::Changed(s, g));
    }
}

proof fn lemma_audio_contains(s: Scope, b: MediaStream, a: MediaStream, x: Finding)
    ensures
        audio_findings(s, b, a).contains(x) <==> (opt_view(b.sample_fmt) != opt_view(a.sample_fmt) && x == Finding::Changed(s, Field::SampleFmt))
            || (opt_view(b.sample_rate) != opt_view(a.sample_rate) && x == Finding::Changed(s, Field::SampleRate))
            || (b.channels != a.channels && x == Finding::Changed(s, Field::Channels))
            || (opt_view(b.channel_layout) != opt_view(a.channel_layout) && x == Finding::Changed(s, Field::ChannelLayout))
            || (b.bits_per_sample != a.bits_per_sample && x == Finding::Changed(s, Field::BitsPerSample))
            || (opt_view(b.bits_per_raw_sample) != opt_view(a.bits_per_raw_sample) && x == Finding::Changed(s, Field::BitsPerRawSample)),
{
    let c0 = changed_if(opt_view(b.sample_fmt) != opt_view(a.sample_fmt), s, Field::SampleFmt);
    lemma_changed_if_contains(opt_view(b.sample_fmt) != opt_view(a.sample_fmt), s, Field::SampleFmt, x);
    let c1 = changed_if(opt_view(b.sample_rate) != opt_view(a.sample_rate), s, Field::SampleRate);
    lemma_changed_if_contains(opt_view(b.sample_rate) != opt_view(a.sample_rate), s, Field::SampleRate, x);
    let c2 = changed_if(b.channels != a.channels, s, Field::Channels);
    lemma_changed_if_contains(b.channels != a.channels, s, Field::Channels, x);
    let c3 = changed_if(opt_view(b.channel_layout) != opt_view(a.channel_layout), s, Field::ChannelLayout);
    lemma_changed_if_contains(opt_view(b.channel_layout) != opt_view(a.channel_layout), s, Field::ChannelLayout, x);
    let c4 = changed_if(b.bits_per_sample != a.bits_per_sample, s, Field::BitsPerSample);
    lemma_changed_if_contains(b.bits_per_sample != a.bits_per_sample, s, Field::BitsPerSample, x);
    let c5 = changed_if(opt_view(b.bits_per_raw_sample) != opt_view(a.bits_per_raw_sample), s, Field::BitsPerRawSample);
    lemma_changed_if_contains(opt_view(b.bits_per_raw_sample) != opt_view(a.bits_per_raw_sample), s, Field::BitsPerRawSample, x);
    let p0 = c0;
    let p1 = p0 + c1;
    lemma_contains_concat(p0, c1, x);
    let p2 = p1 + c2;
    lemma_contains_concat(p1, c2, x);
    let p3 = p2 + c3;
    lemma_contains_concat(p2, c3, x);
    let p4 = p3 + c4;
    lemma_contains_concat(p3, c4, x);
    let p5 = p4 + c5;
    lemma_contains_concat(p4, c5, x);
    assert(audio_findings(s, b, a) == p5);
}

proof fn lemma_audio_group(s: Scope, b: MediaStream, a: MediaStream)
    ensures
        audio_findings(s, b, a).contains(Finding::Changed(s, Field::SampleFmt)) <==> opt_view(b.sample_fmt) != opt_view(a.sample_fmt),
        audio_findings(s, b, a).contains(Finding::Changed(s, Field::SampleRate)) <==> opt_view(b.sample_rate) != opt_view(a.sample_rate),
        audio_findings(s, b, a).contains(Finding::Changed(s, Field::Channels)) <==> b.channels != a.channels,
        audio_findings(s, b, a).contains(Finding::Changed(s, Field::ChannelLayout)) <==> opt_view(b.channel_layout) != opt_view(a.channel_layout),
        audio_findings(s, b, a).contains(Finding::Changed(s, Field::BitsPerSample)) <==> b.bits_per_sample != a.bits_per_sample,
        audio_findings(s, b, a).contains(Finding::Changed(s, Field::BitsPerRawSample)) <==> opt_view(b.bits_per_raw_sample) != opt_view(a.bits_per_raw_sample),
        forall|g: Field| #[trigger] audio_findings(s, b, a).contains(Finding::Changed(s, g)) ==> is_audio_field(g),
{
    lemma_audio_contains(s, b, a, Finding::Changed(s, Field::SampleFmt));
    lemma_audio_contains(s, b, a, Finding::Changed(s, Field::SampleRate));
    lemma_audio_contains(s, b, a, Finding::Changed(s, Field::Channels));
    lemma_audio_contains(s, b, a, Finding::Changed(s, Field::ChannelLayout));
    lemma_audio_contains(s, b, a, Finding::Changed(s, Field::BitsPerSample));
    lemma_audio_contains(s, b, a, Finding::Changed(s, Field::BitsPerRawSample));
    assert forall|g: Field| #[trigger] audio_findings(s, b, a).contains(Finding::Changed(s, g)) implies is_audio_field(g) by {
        lemma_audio_contains(s, b, a, Finding::Changed(s, g));
    }
}

proof fn lemma_copy_contains(s: Scope, b: MediaStream, a: MediaStream, x: Finding)
    ensures
        copied_findings(s, b, a).contains(x) <==> (opt_view(b.codec_name) != opt_view(a.codec_name) && x
            == Finding::Changed(s, Field::CodecName)) || (b.extradata_size != a.extradata_size && x == Finding::Changed(
            s,
            Field::ExtradataSize,
        )) || (opt_view(b.extradata_hash) != opt_view(a.extradata_hash) && x == Finding::Changed(
            s,
            Field::ExtradataHash,
        )) || (x == Finding::AttachmentUnverifiable(s) && crate::media::stream_kind(b) == "attachment"@ && (
        b.extradata_hash is None || a.extradata_hash is None)),
{
    let c0 = changed_if(opt_view(b.codec_name) != opt_view(a.codec_name), s, Field::CodecName);
    let c1 = changed_if(b.extradata_size != a.extradata_size, s, Field::ExtradataSize);
    let c2 = changed_if(opt_view(b.extradata_hash) != opt_view(a.extradata_hash), s, Field::ExtradataHash);
    let note = if crate::media::stream_kind(b) == "attachment"@ && (b.extradata_hash is None || a.extradata_hash is None) {
        seq![Finding::AttachmentUnverifiable(s)]
    } else {
        Seq::<Finding>::empty()
    };
    lemma_changed_if_contains(opt_view(b.codec_name) != opt_view(a.codec_name), s, Field::CodecName, x);
    lemma_changed_if_contains(b.extradata_size != a.extradata_size, s, Field::ExtradataSize, x);
    lemma_changed_if_contains(opt_view(b.extradata_hash) != opt_view(a.extradata_hash), s, Field::ExtradataHash, x);
    lemma_contains_concat(c0, c1, x);
    lemma_contains_concat(c0 + c1, c2, x);
    lemma_contains_concat(c0 + c1 + c2, note, x);
    if note.len() > 0 {
        assert(note.contains(x) <==> note[0] == x);
    }
    assert(copied_findings(s, b, a) == c0 + c1 + c2 + note);
}

proof fn lemma_kind_contains(om: MediaInfo, am: MediaInfo, s: Scope, b: MediaStream, a: MediaStream, g: Field)
    requires
        g != Field::ComponentDepths && g != Field::Chroma && g != Field::Alpha,
    ensures
        ({
            let k = if opt_view(b.codec_type) == Some("audio"@) {
                audio_findings(s, b, a)
            } else if opt_view(b.codec_type) == Some("video"@) {
                video_findings(s, b, a) + layout_findings(s, om, am, b, a)
            } else {
                seq![]
            };
            k.contains(Finding::Changed(s, g)) <==> (opt_view(b.codec_type) == Some("audio"@) && audio_findings(
                s,
                b,
                a,
            ).contains(Finding::Changed(s, g))) || (opt_view(b.codec_type) == Some("video"@) && video_findings(
                s,
                b,
                a,
            ).contains(Finding::Changed(s, g)))
        }),
{
    reveal_strlit("video");
    reveal_strlit("audio");
    assert("video"@ != "audio"@) by {
        assert("video"@[0] != "audio"@[0]);
    }
    lemma_layout_only_layout(s, om, am, b, a, g);
    lemma_contains_concat(video_findings(s, b, a), layout_findings(s, om, am, b, a), Finding::Changed(s, g));
}

proof fn lemma_pair_contains(om: MediaInfo, am: MediaInfo, copy_video: bool, plan: TranscodePlan, i: usize, j: usize, g: Field)
    requires
        i < om.streams@.len(),
        j < am.streams@.len(),
        g != Field::ComponentDepths && g != Field::Chroma && g != Field::Alpha,
    ensures
        ({
            let b = om.streams@[i as int];
            let a = am.streams@[j as int];
            let s = Scope::Stream(i, j);
            pair_findings(om, am, copy_video, plan, i, j).contains(Finding::Changed(s, g)) <==> (g == Field::Disposition
                && set_flags(b.disposition@) != set_flags(a.disposition@)) || (g == Field::SideData && sorted_by_type(
                side_views(b.side_data_list@),
            ) != sorted_by_type(side_views(a.side_data_list@))) || (is_copied(copy_video, b) && copied_findings(
                s,
                b,
                a,
            ).contains(Finding::Changed(s, g))) || (opt_view(b.codec_type) == Some("audio"@) && audio_findings(
                s,
                b,
                a,
            ).contains(Finding::Changed(s, g))) || (opt_view(b.codec_type) == Some("video"@) && video_findings(
                s,
                b,
                a,
            ).contains(Finding::Changed(s, g)))
        }),
{
    let b = om.streams@[i as int];
    let a = am.streams@[j as int];
    let s = Scope::Stream(i, j);
    let x = Finding::Changed(s, g);
    let expected = match crate::compare::planned_tags(plan.attachments@, b.index) {
        Some(t) => t,
        None => b.tags.view_pairs(),
    };
    let t = tag_findings(s, expected, a.tags.view_pairs());
    let d = changed_if(set_flags(b.disposition@) != set_flags(a.disposition@), s, Field::Disposition);
    let sd = changed_if(
        sorted_by_type(side_views(b.side_data_list@)) != sorted_by_type(side_views(a.side_data_list@)),
        s,
        Field::SideData,
    );
    let c = if is_copied(copy_video, b) {
        copied_findings(s, b, a)
    } else {
        seq![]
    };
    let k = if opt_view(b.codec_type) == Some("audio"@) {
        audio_findings(s, b, a)
    } else if opt_view(b.codec_type) == Some("video"@) {
        video_findings(s, b, a) + layout_findings(s, om, am, b, a)
    } else {
        seq![]
    };
    assert(pair_findings(om, am, copy_video, plan, i, j) == t + d + sd + c + k);
    lemma_tags_only_tags(s, expected, a.tags.view_pairs(), g);
    lemma_changed_if_contains(set_flags(b.disposition@) != set_flags(a.disposition@), s, Field::Disposition, x);
    lemma_changed_if_contains(
        sorted_by_type(side_views(b.side_data_list@)) != sorted_by_type(side_views(a.side_data_list@)),
        s,
        Field::SideData,
        x,
    );
    if !is_copied(copy_video, b) {
        assert(!c.contains(x));
    }
    lemma_kind_contains(om, am, s, b, a, g);
    lemma_contains_concat(t, d, x);
    lemma_contains_concat(t + d, sd, x);
    lemma_contains_concat(t + d + sd, c, x);
    lemma_contains_concat(t + d + sd + c, k, x);
}

/// Each field of a compared stream pair is reported on its own values: the finding
/// for a field is there exactly when that field of the input stream and that same
/// field of the output stream differ. Video fields are compared for video streams
/// only, audio fields for audio streams only, and the stream-copy fields (codec,
/// extradata) for copied streams only.
pub proof fn law_pair_reports_each_field(
    om: MediaInfo,
    am: MediaInfo,
    copy_video: bool,
    plan: TranscodePlan,
    i: usize,
    j: usize,
)
    requires
        i < om.streams@.len(),
        j < am.streams@.len(),
    ensures
        ({
            let b = om.streams@[i as int];
            let a = am.streams@[j as int];
            let s = Scope::Stream(i, j);
            let fs = pair_findings(om, am, copy_video, plan, i, j);
            let video = opt_view(b.codec_type) == Some("video"@);
            let audio = opt_view(b.codec_type) == Some("audio"@);
            let copied = is_copied(copy_video, b);
            &&& fs.contains(Finding::Changed(s, Field::Width)) <==> video && b.width != a.width
            &&& fs.contains(Finding::Changed(s, Field::Height)) <==> video && b.height != a.height
            &&& fs.contains(Finding::Changed(s, Field::SampleAspectRatio)) <==> video && opt_view(b.sample_aspect_ratio)
                != opt_view(a.sample_aspect_ratio)
            &&& fs.contains(Finding::Changed(s, Field::ColorRange)) <==> video && opt_view(b.color_range) != opt_view(
                a.color_range,
            )
            &&& fs.contains(Finding::Changed(s, Field::ColorSpace)) <==> video && opt_view(b.color_space) != opt_view(
                a.color_space,
            )
            &&& fs.contains(Finding::Changed(s, Field::ColorTransfer)) <==> video && opt_view(b.color_transfer)
                != opt_view(a.color_transfer)
            &&& fs.contains(Finding::Changed(s, Field::ColorPrimaries)) <==> video && opt_view(b.color_primaries)
                != opt_view(a.color_primaries)
            &&& fs.contains(Finding::Changed(s, Field::ChromaLocation)) <==> video && opt_view(b.chroma_location)
                != opt_view(a.chroma_location)
            &&& fs.contains(Finding::Changed(s, Field::FieldOrder)) <==> video && opt_view(b.field_order) != opt_view(
                a.field_order,
            )
            &&& fs.contains(Finding::Changed(s, Field::SampleFmt)) <==> audio && opt_view(b.sample_fmt) != opt_view(
                a.sample_fmt,
            )
            &&& fs.contains(Finding::Changed(s, Field::SampleRate)) <==> audio && opt_view(b.sample_rate) != opt_view(
                a.sample_rate,
            )
            &&& fs.contains(Finding::Changed(s, Field::Channels)) <==> audio && b.channels != a.channels
            &&& fs.contains(Finding::Changed(s, Field::ChannelLayout)) <==> audio && opt_view(b.channel_layout)
                != opt_view(a.channel_layout)
            &&& fs.contains(Finding::Changed(s, Field::BitsPerSample)) <==> audio && b.bits_per_sample
                != a.bits_per_sample
            &&& fs.contains(Finding::Changed(s, Field::BitsPerRawSample)) <==> audio && opt_view(b.bits_per_raw_sample)
                != opt_view(a.bits_per_raw_sample)
            &&& fs.contains(Finding::Changed(s, Field::CodecName)) <==> copied && opt_view(b.codec_name) != opt_view(
                a.codec_name,
            )
            &&& fs.contains(Finding::Changed(s, Field::ExtradataSize)) <==> copied && b.extradata_size
                != a.extradata_size
            &&& fs.contains(Finding::Changed(s, Field::ExtradataHash)) <==> copied && opt_view(b.extradata_hash)
                != opt_view(a.extradata_hash)
            &&& fs.contains(Finding::Changed(s, Field::Disposition)) <==> set_flags(b.disposition@) != set_flags(
                a.disposition@,
            )
            &&& fs.contains(Finding::Changed(s, Field::SideData)) <==> sorted_by_type(side_views(b.side_data_list@))
                != sorted_by_type(side_views(a.side_data_list@))
        }),
{
    let b = om.streams@[i as int];
    let a = am.streams@[j as int];
    let s = Scope::Stream(i, j);
    lemma_video_group(s, b, a);
    lemma_audio_group(s, b, a);
    reveal_strlit("video");
    reveal_strlit("audio");
    assert("video"@ != "audio"@) by {
        assert("video"@[0] != "audio"@[0]);
    }
    lemma_pair_contains(om, am, copy_video, plan, i, j, Field::Width);
    lemma_copy_contains(s, b, a, Finding::Changed(s, Field::Width));
    lemma_pair_contains(om, am, copy_video, plan, i, j, Field::Height);
    lemma_copy_contains(s, b, a, Finding::Changed(s, Field::Height));
    lemma_pair_contains(om, am, copy_video, plan, i, j, Field::SampleAspectRatio);
    lemma_copy_contains(s, b, a, Finding::Changed(s, Field::SampleAspectRatio));
    lemma_pair_contains(om, am, copy_video, plan, i, j, Field::ColorRange);
    lemma_copy_contains(s, b, a, Finding::Changed(s, Field::ColorRange));
    lemma_pair_contains(om, am, copy_video, plan, i, j, Field::ColorSpace);
    lemma_copy_contains(s, b, a, Finding::Changed(s, Field::ColorSpace));
    lemma_pair_contains(om, am, copy_video, plan, i, j, Field::ColorTransfer);
    lemma_copy_contains(s, b, a, Finding::Changed(s, Field::ColorTransfer));
    lemma_pair_contains(om, am, copy_video, plan, i, j, Field::ColorPrimaries);
    lemma_copy_contains(s, b, a, Finding::Changed(s, Field::ColorPrimaries));
    lemma_pair_contains(om, am, copy_video, plan, i, j, Field::ChromaLocation);
    lemma_copy_contains(s, b, a, Finding::Changed(s, Field::ChromaLocation));
    lemma_pair_contains(om, am, copy_video, plan, i, j, Field::FieldOrder);
    lemma_copy_contains(s, b, a, Finding::Changed(s, Field::FieldOrder));
    lemma_pair_contains(om, am, copy_video, plan, i, j, Field::SampleFmt);
    lemma_copy_contains(s, b, a, Finding::Changed(s, Field::SampleFmt));
    lemma_pair_contains(om, am, copy_video, plan, i, j, Field::SampleRate);
    lemma_copy_contains(s, b, a, Finding::Changed(s, Field::SampleRate));
    lemma_pair_contains(om, am, copy_video, plan, i, j, Field::Channels);
    lemma_copy_contains(s, b, a, Finding::Changed(s, Field::Channels));
    lemma_pair_contains(om, am, copy_video, plan, i, j, Field::ChannelLayout);
    lemma_copy_contains(s, b, a, Finding::Changed(s, Field::ChannelLayout));
    lemma_pair_contains(om, am, copy_video, plan, i, j, Field::BitsPerSample);
    lemma_copy_contains(s, b, a, Finding::Changed(s, Field::BitsPerSample));
    lemma_pair_contains(om, am, copy_video, plan, i, j, Field::BitsPerRawSample);
    lemma_copy_contains(s, b, a, Finding::Changed(s, Field::BitsPerRawSample));
    lemma_pair_contains(om, am, copy_video, plan, i, j, Field::CodecName);
    lemma_copy_contains(s, b, a, Finding::Changed(s, Field::CodecName));
    lemma_pair_contains(om, am, copy_video, plan, i, j, Field::ExtradataSize);
    lemma_copy_contains(s, b, a, Finding::Changed(s, Field::ExtradataSize));
    lemma_pair_contains(om, am, copy_video, plan, i, j, Field::ExtradataHash);
    lemma_copy_contains(s, b, a, Finding::Changed(s, Field::ExtradataHash));
    lemma_pair_contains(om, am, copy_video, plan, i, j, Field::Disposition);
    lemma_copy_contains(s, b, a, Finding::Changed(s, Field::Disposition));
    lemma_pair_contains(om, am, copy_video, plan, i, j, Field::SideData);
    lemma_copy_contains(s, b, a, Finding::Changed(s, Field::SideData));
}

/// Where the options of attachment `k` start among the attach options: each
/// attachment takes `-attach PATH` and two tokens per tag.
pub open spec fn attach_offset(atts: Seq<PlannedAttachment>, k: nat) -> nat
    decreases k,
{
    if k == 0 {
        0
    } else {
        attach_offset(atts, (k - 1) as nat) + 2 + 2 * atts[k - 1].metadata.view_pairs().len()
    }
}

proof fn lemma_metadata_len(n: usize, tags: Seq<(Seq<char>, Seq<char>)>)
    ensures
        metadata_args(n, tags).len() == 2 * tags.len(),
    decreases tags.len(),
{
    if tags.len() > 0 {
        lemma_metadata_len(n, tags.drop_last());
    }
}

proof fn lemma_metadata_at(n: usize, tags: Seq<(Seq<char>, Seq<char>)>, t: int)
    requires
        0 <= t < tags.len(),
    ensures
        metadata_args(n, tags)[2 * t] == "-metadata:s:"@ + decimal(n as nat),
        metadata_args(n, tags)[2 * t + 1] == tags[t].0 + "="@ + tags[t].1,
    decreases tags.len(),
{
    let init = tags.drop_last();
    lemma_metadata_len(n, init);
    let m = metadata_args(n, tags);
    let mi = metadata_args(n, init);
    let last = seq!["-metadata:s:"@ + decimal(n as nat), tags.last().0 + "="@ + tags.last().1];
    assert(m == mi + last);
    if t < init.len() {
        lemma_metadata_at(n, init, t);
        assert(init[t] == tags[t]);
        assert(m[2 * t] == mi[2 * t]);
        assert(m[2 * t + 1] == mi[2 * t + 1]);
    } else {
        assert(m[2 * t] == last[0]);
        assert(m[2 * t + 1] == last[1]);
    }
}

proof fn lemma_offset_prefix(atts: Seq<PlannedAttachment>, m: nat, k: nat)
    requires
        k <= m <= atts.len(),
    ensures
        attach_offset(atts.take(m as int), k) == attach_offset(atts, k),
    decreases k,
{
    if k > 0 {
        lemma_offset_prefix(atts, m, (k - 1) as nat);
        assert(atts.take(m as int)[k - 1] == atts[k - 1]);
    }
}

proof fn lemma_offset_grows(atts: Seq<PlannedAttachment>, k: nat, m: nat)
    requires
        k <= m,
    ensures
        attach_offset(atts, k) <= attach_offset(atts, m),
    decreases m,
{
    if m > k {
        lemma_offset_grows(atts, k, (m - 1) as nat);
    }
}

proof fn lemma_attach_len(dir: Seq<char>, atts: Seq<PlannedAttachment>)
    ensures
        attach_args(dir, atts).len() == attach_offset(atts, atts.len()),
    decreases atts.len(),
{
    if atts.len() > 0 {
        let n = (atts.len() - 1) as nat;
        let init = atts.drop_last();
        assert(init =~= atts.take(n as int));
        lemma_attach_len(dir, init);
        lemma_offset_prefix(atts, n, n);
        lemma_metadata_len(atts.last().output_index, atts.last().metadata.view_pairs());
    }
}

/// Attachment `k` is attached at its offset, and its tags follow as `-metadata:s:N`
/// options with its output index.
proof fn lemma_attach_at(dir: Seq<char>, atts: Seq<PlannedAttachment>, k: int)
    requires
        0 <= k < atts.len(),
    ensures
        attach_args(dir, atts)[attach_offset(atts, k as nat) as int] == "-attach"@,
        attach_args(dir, atts)[attach_offset(atts, k as nat) as int + 1] == attachment_path(dir, atts[k].input_index),
        forall|t: int|
            #![trigger attach_args(dir, atts)[attach_offset(atts, k as nat) + 2 + 2 * t]]
            0 <= t < atts[k].metadata.view_pairs().len() ==> attach_args(dir, atts)[attach_offset(atts, k as nat) + 2
                + 2 * t] == "-metadata:s:"@ + decimal(atts[k].output_index as nat) && attach_args(dir, atts)[
                attach_offset(atts, k as nat) + 3 + 2 * t] == atts[k].metadata.view_pairs()[t].0 + "="@
                + atts[k].metadata.view_pairs()[t].1,
    decreases atts.len(),
{
    let n = (atts.len() - 1) as nat;
    let init = atts.drop_last();
    assert(init =~= atts.take(n as int));
    let a = atts.last();
    let tags = a.metadata.view_pairs();
    let head = attach_args(dir, init);
    let block = seq!["-attach"@, attachment_path(dir, a.input_index)] + metadata_args(a.output_index, tags);
    assert(attach_args(dir, atts) == head + block);
    lemma_attach_len(dir, init);
    lemma_offset_prefix(atts, n, n);
    lemma_offset_prefix(atts, n, k as nat);
    if k < n {
        lemma_attach_at(dir, init, k);
        lemma_offset_grows(init, (k + 1) as nat, n);
        assert(init[k] == atts[k]);
        assert forall|t: int|
            #![trigger attach_args(dir, atts)[attach_offset(atts, k as nat) + 2 + 2 * t]]
            0 <= t < atts[k].metadata.view_pairs().len() implies attach_args(dir, atts)[attach_offset(atts, k as nat)
                + 2 + 2 * t] == "-metadata:s:"@ + decimal(atts[k].output_index as nat) && attach_args(dir, atts)[
                attach_offset(atts, k as nat) + 3 + 2 * t] == atts[k].metadata.view_pairs()[t].0 + "="@
                + atts[k].metadata.view_pairs()[t].1 by {
            assert(init[k].metadata.view_pairs()[t] == atts[k].metadata.view_pairs()[t]);
            assert(attach_offset(init, k as nat) == attach_offset(atts, k as nat));
            let x = attach_offset(init, k as nat) + 2 + 2 * t;
            assert(head[x] == "-metadata:s:"@ + decimal(init[k].output_index as nat));
            assert(head[x + 1] == init[k].metadata.view_pairs()[t].0 + "="@ + init[k].metadata.view_pairs()[t].1);
            assert(attach_args(dir, atts)[x] == head[x]);
            assert(attach_args(dir, atts)[x + 1] == head[x + 1]);
        }
    } else {
        lemma_metadata_len(a.output_index, tags);
        assert forall|t: int|
            #![trigger attach_args(dir, atts)[attach_offset(atts, k as nat) + 2 + 2 * t]]
            0 <= t < atts[k].metadata.view_pairs().len() implies attach_args(dir, atts)[attach_offset(atts, k as nat)
                + 2 + 2 * t] == "-metadata:s:"@ + decimal(atts[k].output_index as nat) && attach_args(dir, atts)[
                attach_offset(atts, k as nat) + 3 + 2 * t] == atts[k].metadata.view_pairs()[t].0 + "="@
                + atts[k].metadata.view_pairs()[t].1 by {
            lemma_metadata_at(a.output_index, tags, t);
            assert(block[2 + 2 * t] == metadata_args(a.output_index, tags)[2 * t]);
            assert(block[3 + 2 * t] == metadata_args(a.output_index, tags)[2 * t + 1]);
        }
    }
}

/// The two tokens of tag `t` of attachment `a`, in `args` after the attachment's
/// options start at `at`: `-metadata:s:N` with N its output index, then `KEY=VALUE`.
pub open spec fn tag_options_at(args: Seq<Seq<char>>, at: int, a: PlannedAttachment, t: int) -> bool {
    &&& args[at + 2 + 2 * t] == "-metadata:s:"@ + decimal(a.output_index as nat)
    &&& args[at + 3 + 2 * t] == a.metadata.view_pairs()[t].0 + "="@ + a.metadata.view_pairs()[t].1
}

/// Where the attach options start in a transcode command: after the five leading
/// options, the attachment dumps and the plan's own options.
pub open spec fn attach_start(p: TranscodePlan, dir: Seq<char>) -> int {
    (5 + dump_args(dir, p.attachments@).len() + p.args@.len()) as int
}

/// In a transcode command, every attachment is attached from the file its input
/// stream was dumped or extracted to, and each of its tags follows as
/// `-metadata:s:N KEY=VALUE` with N the attachment's planned output index; the
/// output path comes last.
pub proof fn law_attachment_tags_name_the_output_stream(p: TranscodePlan, dir: Seq<char>)
    ensures
        transcode_args(p, dir).len() == attach_start(p, dir) + attach_offset(p.attachments@, p.attachments@.len()) + 1,
        transcode_args(p, dir).last() == p.output@,
        forall|k: int|
            0 <= k < p.attachments@.len() ==> transcode_args(p, dir)[attach_start(p, dir) + #[trigger] attach_offset(
                p.attachments@,
                k as nat,
            )] == "-attach"@ && transcode_args(p, dir)[attach_start(p, dir) + attach_offset(p.attachments@, k as nat)
                + 1] == attachment_path(dir, p.attachments@[k].input_index),
        forall|k: int, t: int|
            0 <= k < p.attachments@.len() && 0 <= t < p.attachments@[k].metadata.view_pairs().len()
                ==> #[trigger] tag_options_at(
                transcode_args(p, dir),
                attach_start(p, dir) + attach_offset(p.attachments@, k as nat),
                p.attachments@[k],
                t,
            ),
{
    let atts = p.attachments@;
    lemma_attach_len(dir, atts);
    let pre = crate::commands::transcode_prefix() + dump_args(dir, atts) + string_views(p.args@);
    assert(crate::commands::transcode_prefix().len() == 5);
    assert(pre.len() == attach_start(p, dir));
    let at = attach_args(dir, atts);
    let args = transcode_args(p, dir);
    assert(args == pre + at + seq![p.output@]);
    let base: int = attach_start(p, dir);
    assert forall|k: int| 0 <= k < atts.len() implies args[base + #[trigger] attach_offset(atts, k as nat)] == "-attach"@
        && args[base + attach_offset(atts, k as nat) + 1] == attachment_path(dir, atts[k].input_index) by {
        lemma_attach_at(dir, atts, k);
        lemma_offset_grows(atts, (k + 1) as nat, atts.len());
        assert(args[base + attach_offset(atts, k as nat)] == at[attach_offset(atts, k as nat) as int]);
        assert(args[base + attach_offset(atts, k as nat) + 1] == at[attach_offset(atts, k as nat) as int + 1]);
    }
    assert forall|k: int, t: int|
        0 <= k < p.attachments@.len() && 0 <= t < p.attachments@[k].metadata.view_pairs().len() implies #[trigger] tag_options_at(
            transcode_args(p, dir),
            attach_start(p, dir) + attach_offset(p.attachments@, k as nat),
            p.attachments@[k],
            t,
        ) by {
        lemma_attach_at(dir, atts, k);
        lemma_offset_grows(atts, (k + 1) as nat, atts.len());
        let x = attach_offset(atts, k as nat) + 2 + 2 * t;
        assert(at[x] == "-metadata:s:"@ + decimal(atts[k].output_index as nat));
        assert(at[x + 1] == atts[k].metadata.view_pairs()[t].0 + "="@ + atts[k].metadata.view_pairs()[t].1);
        assert(args[base + x] == at[x]);
        assert(args[base + x + 1] == at[x + 1]);
    }
}

/// Each key of a progress line fills its own field of the record being collected and
/// leaves every other field as it was: `dup_frames=V` sets the duplicated-frame count
/// to V read as a number and keeps the dropped-frame count, and `drop_frames=V`
/// the other way round; lines with another key, or none, change nothing. A count
/// written in decimal is read back as that number.
pub proof fn law_progress_keys_fill_their_own_field(p: Progress, q: Progress, line: Seq<char>, n: nat)
    requires
        q@ == progress_step(p@, line).0,
    ensures
        key_value(line) matches Some((k, v)) ==> (k == "frame"@ ==> q.frame == u64_value(v) && text_view(q.fps) == text_view(p.fps) && text_view(q.speed) == text_view(p.speed) && q.total_size == p.total_size && q.out_time_us == p.out_time_us && q.dup_frames == p.dup_frames && q.drop_frames == p.drop_frames && q.finished == p.finished),
        key_value(line) matches Some((k, v)) ==> (k == "fps"@ ==> q.frame == p.frame && text_view(q.fps) == Some(v) && text_view(q.speed) == text_view(p.speed) && q.total_size == p.total_size && q.out_time_us == p.out_time_us && q.dup_frames == p.dup_frames && q.drop_frames == p.drop_frames && q.finished == p.finished),
        key_value(line) matches Some((k, v)) ==> (k == "speed"@ ==> q.frame == p.frame && text_view(q.fps) == text_view(p.fps) && text_view(q.speed) == Some(without_x(v)) && q.total_size == p.total_size && q.out_time_us == p.out_time_us && q.dup_frames == p.dup_frames && q.drop_frames == p.drop_frames && q.finished == p.finished),
        key_value(line) matches Some((k, v)) ==> (k == "total_size"@ ==> q.frame == p.frame && text_view(q.fps) == text_view(p.fps) && text_view(q.speed) == text_view(p.speed) && q.total_size == u64_value(v) && q.out_time_us == p.out_time_us && q.dup_frames == p.dup_frames && q.drop_frames == p.drop_frames && q.finished == p.finished),
        key_value(line) matches Some((k, v)) ==> (k == "out_time_us"@ ==> q.frame == p.frame && text_view(q.fps) == text_view(p.fps) && text_view(q.speed) == text_view(p.speed) && q.total_size == p.total_size && q.out_time_us == i64_value(v) && q.dup_frames == p.dup_frames && q.drop_frames == p.drop_frames && q.finished == p.finished),
        key_value(line) matches Some((k, v)) ==> (k == "dup_frames"@ ==> q.frame == p.frame && text_view(q.fps) == text_view(p.fps) && text_view(q.speed) == text_view(p.speed) && q.total_size == p.total_size && q.out_time_us == p.out_time_us && q.dup_frames == u64_value(v) && q.drop_frames == p.drop_frames && q.finished == p.finished),
        key_value(line) matches Some((k, v)) ==> (k == "drop_frames"@ ==> q.frame == p.frame && text_view(q.fps) == text_view(p.fps) && text_view(q.speed) == text_view(p.speed) && q.total_size == p.total_size && q.out_time_us == p.out_time_us && q.dup_frames == p.dup_frames && q.drop_frames == u64_value(v) && q.finished == p.finished),
        (key_value(line) matches Some((k, _)) && k != "frame"@ && k != "fps"@ && k != "speed"@ && k != "total_size"@ && k != "out_time_us"@ && k != "dup_frames"@ && k != "drop_frames"@ && k != "progress"@) || key_value(line) is None ==> q.frame == p.frame && text_view(q.fps) == text_view(p.fps) && text_view(q.speed) == text_view(p.speed) && q.total_size == p.total_size && q.out_time_us == p.out_time_us && q.dup_frames == p.dup_frames && q.drop_frames == p.drop_frames && q.finished == p.finished,
        n <= u64::MAX ==> u64_value(decimal(n)) == Some(n as u64),
{
    reveal_strlit("frame");
    reveal_strlit("fps");
    reveal_strlit("speed");
    reveal_strlit("total_size");
    reveal_strlit("out_time_us");
    reveal_strlit("dup_frames");
    reveal_strlit("drop_frames");
    reveal_strlit("progress");
    assert("progress"@.len() == 8);
    assert("frame"@.len() == 5 && "fps"@.len() == 3 && "speed"@.len() == 5 && "total_size"@.len() == 10);
    assert("out_time_us"@.len() == 11 && "dup_frames"@.len() == 10 && "drop_frames"@.len() == 11);
    assert("dup_frames"@[1] == 'u' && "drop_frames"@[1] == 'r' && "frame"@[0] == 'f' && "fps"@[0] == 'f');
    assert("total_size"@[0] == 't' && "speed"@[0] == 's');
    crate::laws::lemma_decimal_reads_back(n);
    assert(crate::text::unsigned_digits(decimal(n)) == decimal(n));
}

proof fn lemma_digit_char(k: nat)
    requires
        k < 10,
    ensures
        crate::text::is_digit(digit_char(k)),
        crate::text::digit_value(digit_char(k)) == k,
        k > 0 ==> digit_char(k) != '0',
{
    assert(digit_char(k) as int == k + 48);
}

/// The length of a number's decimal notation, and that it starts with a non-zero
/// digit unless the number is zero.
proof fn lemma_decimal_shape(n: nat)
    ensures
        n < 10 ==> decimal(n).len() == 1,
        10 <= n < 100 ==> decimal(n).len() == 2,
        n >= 100 ==> decimal(n).len() >= 3,
        n > 0 ==> decimal(n)[0] != '0',
    decreases n,
{
    lemma_digit_char(n % 10);
    if n >= 10 {
        lemma_decimal_shape(n / 10);
        assert(decimal(n)[0] == decimal(n / 10)[0]);
    }
}

/// A number below 100 is written with exactly two digits that read back as it;
/// a larger one with its own digits and no leading zero.
proof fn lemma_two_digits(n: nat)
    ensures
        all_digits(two_digits(n)),
        digits_value(two_digits(n)) == n,
        n < 100 ==> two_digits(n).len() == 2,
        n >= 100 ==> two_digits(n).len() >= 3 && two_digits(n)[0] != '0',
{
    crate::laws::lemma_decimal_reads_back(n);
    lemma_decimal_shape(n);
    if n < 10 {
        let t = two_digits(n);
        lemma_digit_char(0);
        reveal_strlit("0");
        assert("0"@ =~= seq!['0']);
        assert(decimal(n) == seq![digit_char(n)]);
        assert(t =~= seq!['0', digit_char(n)]);
        let z = t.drop_last();
        assert(z =~= seq!['0']);
        assert(z.drop_last() =~= Seq::<char>::empty());
        assert(digits_value(z.drop_last()) == 0);
        assert(z.last() == '0');
        assert(crate::text::digit_value('0') == 0);
        assert(digits_value(z) == 0);
        assert forall|i: int| 0 <= i < t.len() implies crate::text::is_digit(#[trigger] t[i]) by {
            if i == 0 {
                assert(t[0] == '0');
            } else {
                assert(t[1] == decimal(n)[0]);
            }
        }
    }
}

/// A duration reads as hours, minutes and seconds: the last two fields are exactly
/// two digits holding the minutes and seconds, the first holds the whole hours,
/// with exactly two digits below 100 hours and no leading zero above, and the
/// three are separated by colons.
pub proof fn law_duration_fields_read_back(s: nat)
    ensures
        ({
            let t = duration_text(s);
            let l = t.len() as int;
            &&& l >= 8
            &&& t[l - 6] == ':' && t[l - 3] == ':'
            &&& all_digits(t.subrange(0, l - 6)) && digits_value(t.subrange(0, l - 6)) == s / 3600
            &&& all_digits(t.subrange(l - 5, l - 3)) && digits_value(t.subrange(l - 5, l - 3)) == s / 60 % 60
            &&& all_digits(t.subrange(l - 2, l)) && digits_value(t.subrange(l - 2, l)) == s % 60
            &&& s / 3600 < 100 ==> l == 8
            &&& s / 3600 >= 100 ==> t[0] != '0'
        }),
{
    let h = two_digits(s / 3600);
    let m = two_digits(s / 60 % 60);
    let c = two_digits(s % 60);
    lemma_two_digits(s / 3600);
    lemma_two_digits(s / 60 % 60);
    lemma_two_digits(s % 60);
    let t = duration_text(s);
    assert(t == h + ":"@ + m + ":"@ + c);
    reveal_strlit(":");
    let l = t.len() as int;
    assert(l == h.len() + 6);
    assert(t.subrange(0, l - 6) =~= h);
    assert(t.subrange(l - 5, l - 3) =~= m);
    assert(t.subrange(l - 2, l) =~= c);
    assert(t[l - 6] == ":"@[0]);
    assert(t[l - 3] == ":"@[0]);
    assert(t[0] == h[0]);
}

/// Tags report no changed field, whatever the scope.
proof fn lemma_tag_findings_no_change(s: Scope, b: TagView, a: TagView, t: Scope, g: Field)
    ensures
        !tag_findings(s, b, a).contains(Finding::Changed(t, g)),
{
    lemma_changed_tags_only_tags(s, b, a, b.len(), t, g);
    lemma_added_tags_only_tags(s, b, a, a.len(), t, g);
    lemma_contains_concat(changed_tags(s, b, a, b.len()), added_tags(s, b, a, a.len()), Finding::Changed(t, g));
}

/// The first `m` chapter pairs report only about chapters below `m`.
proof fn lemma_chapter_pairs_below(b: Seq<Chapter>, a: Seq<Chapter>, m: nat, k: nat, g: Field)
    requires
        b.len() <= usize::MAX,
        k < b.len(),
        chapter_pairs(b, a, m).contains(Finding::Changed(Scope::Chapter(k as usize), g)),
    ensures
        k < m,
    decreases m,
{
    let x = Finding::Changed(Scope::Chapter(k as usize), g);
    if m == 0 || m > b.len() || m > a.len() {
        assert(chapter_pairs(b, a, m) =~= Seq::<Finding>::empty());
    } else {
        let j = (m - 1) as nat;
        let scope = Scope::Chapter(j as usize);
        let head = chapter_pairs(b, a, j);
        let c1 = changed_if(opt_view(b[j as int].start_time) != opt_view(a[j as int].start_time), scope, Field::StartTime);
        let c2 = changed_if(opt_view(b[j as int].end_time) != opt_view(a[j as int].end_time), scope, Field::EndTime);
        let t = tag_findings(scope, b[j as int].tags.view_pairs(), a[j as int].tags.view_pairs());
        assert(chapter_pairs(b, a, m) == head + c1 + c2 + t);
        lemma_contains_concat(head + c1 + c2, t, x);
        lemma_contains_concat(head + c1, c2, x);
        lemma_contains_concat(head, c1, x);
        lemma_tag_findings_no_change(scope, b[j as int].tags.view_pairs(), a[j as int].tags.view_pairs(), Scope::Chapter(k as usize), g);
        lemma_changed_if_contains(opt_view(b[j as int].start_time) != opt_view(a[j as int].start_time), scope, Field::StartTime, x);
        lemma_changed_if_contains(opt_view(b[j as int].end_time) != opt_view(a[j as int].end_time), scope, Field::EndTime, x);
        if head.contains(x) {
            lemma_chapter_pairs_below(b, a, j, k, g);
        } else {
            assert((j as usize) as nat == j);
        }
    }
}

proof fn lemma_chapter_pair_contains(b: Seq<Chapter>, a: Seq<Chapter>, m: nat, k: nat, g: Field)
    requires
        b.len() <= usize::MAX,
        k < m <= b.len(),
        m <= a.len(),
    ensures
        chapter_pairs(b, a, m).contains(Finding::Changed(Scope::Chapter(k as usize), g)) <==> (g == Field::StartTime
            && opt_view(b[k as int].start_time) != opt_view(a[k as int].start_time)) || (g == Field::EndTime && opt_view(
            b[k as int].end_time,
        ) != opt_view(a[k as int].end_time)),
    decreases m,
{
    let x = Finding::Changed(Scope::Chapter(k as usize), g);
    let j = (m - 1) as nat;
    let scope = Scope::Chapter(j as usize);
    let head = chapter_pairs(b, a, j);
    let c1 = changed_if(opt_view(b[j as int].start_time) != opt_view(a[j as int].start_time), scope, Field::StartTime);
    let c2 = changed_if(opt_view(b[j as int].end_time) != opt_view(a[j as int].end_time), scope, Field::EndTime);
    let t = tag_findings(scope, b[j as int].tags.view_pairs(), a[j as int].tags.view_pairs());
    assert(chapter_pairs(b, a, m) == head + c1 + c2 + t);
    lemma_contains_concat(head + c1 + c2, t, x);
    lemma_contains_concat(head + c1, c2, x);
    lemma_contains_concat(head, c1, x);
    lemma_tag_findings_no_change(scope, b[j as int].tags.view_pairs(), a[j as int].tags.view_pairs(), Scope::Chapter(k as usize), g);
    lemma_changed_if_contains(opt_view(b[j as int].start_time) != opt_view(a[j as int].start_time), scope, Field::StartTime, x);
    lemma_changed_if_contains(opt_view(b[j as int].end_time) != opt_view(a[j as int].end_time), scope, Field::EndTime, x);
    assert((k as usize) as nat == k);
    assert((j as usize) as nat == j);
    if k < j {
        lemma_chapter_pair_contains(b, a, j, k, g);
    } else {
        if head.contains(x) {
            lemma_chapter_pairs_below(b, a, j, k, g);
        }
    }
}

/// The container and the chapters are reported on their own values: a changed
/// duration, program metadata or chapter count is reported exactly when it
/// differs, and a chapter both files have is reported as changed in its start or
/// end time exactly when that time differs.
pub proof fn law_container_and_chapters_report_their_own_values(om: MediaInfo, am: MediaInfo)
    requires
        om.chapters@.len() <= usize::MAX,
    ensures
        container_findings(om, am).contains(Finding::Changed(Scope::Container, Field::Duration)) <==> opt_view(
            om.format.duration,
        ) != opt_view(am.format.duration),
        container_findings(om, am).contains(Finding::Changed(Scope::Container, Field::ProgramMetadata)) <==> program_views(
            om.programs@,
        ) != program_views(am.programs@),
        chapter_findings(om, am).contains(Finding::Changed(Scope::Chapters, Field::Count)) <==> om.chapters@.len()
            != am.chapters@.len(),
        forall|k: nat|
            k < om.chapters@.len() && k < am.chapters@.len() ==> (#[trigger] chapter_findings(om, am).contains(
                Finding::Changed(Scope::Chapter(k as usize), Field::StartTime),
            ) <==> opt_view(om.chapters@[k as int].start_time) != opt_view(am.chapters@[k as int].start_time)),
        forall|k: nat|
            k < om.chapters@.len() && k < am.chapters@.len() ==> (#[trigger] chapter_findings(om, am).contains(
                Finding::Changed(Scope::Chapter(k as usize), Field::EndTime),
            ) <==> opt_view(om.chapters@[k as int].end_time) != opt_view(am.chapters@[k as int].end_time)),
{
    let t = tag_findings(Scope::Container, om.format.tags.view_pairs(), am.format.tags.view_pairs());
    let d = changed_if(opt_view(om.format.duration) != opt_view(am.format.duration), Scope::Container, Field::Duration);
    let pm = changed_if(program_views(om.programs@) != program_views(am.programs@), Scope::Container, Field::ProgramMetadata);
    assert(container_findings(om, am) == t + d + pm);
    let b = om.chapters@;
    let a = am.chapters@;
    let n = if b.len() <= a.len() {
        b.len()
    } else {
        a.len()
    };
    let cc = changed_if(b.len() != a.len(), Scope::Chapters, Field::Count);
    let cp = chapter_pairs(b, a, n);
    assert(chapter_findings(om, am) == cc + cp);
    assert forall|g: Field| g == Field::Duration || g == Field::ProgramMetadata implies (#[trigger] container_findings(
        om,
        am,
    ).contains(Finding::Changed(Scope::Container, g)) <==> (g == Field::Duration && opt_view(om.format.duration)
        != opt_view(am.format.duration)) || (g == Field::ProgramMetadata && program_views(om.programs@)
        != program_views(am.programs@))) by {
        let x = Finding::Changed(Scope::Container, g);
        lemma_tag_findings_no_change(Scope::Container, om.format.tags.view_pairs(), am.format.tags.view_pairs(), Scope::Container, g);
        lemma_changed_if_contains(opt_view(om.format.duration) != opt_view(am.format.duration), Scope::Container, Field::Duration, x);
        lemma_changed_if_contains(program_views(om.programs@) != program_views(am.programs@), Scope::Container, Field::ProgramMetadata, x);
        lemma_contains_concat(t, d, x);
        lemma_contains_concat(t + d, pm, x);
    }
    assert(container_findings(om, am).contains(Finding::Changed(Scope::Container, Field::Duration)) == (opt_view(
        om.format.duration,
    ) != opt_view(am.format.duration)));
    assert(container_findings(om, am).contains(Finding::Changed(Scope::Container, Field::ProgramMetadata)) == (
    program_views(om.programs@) != program_views(am.programs@)));
    let xc = Finding::Changed(Scope::Chapters, Field::Count);
    lemma_changed_if_contains(b.len() != a.len(), Scope::Chapters, Field::Count, xc);
    lemma_contains_concat(cc, cp, xc);
    assert(!cp.contains(xc)) by {
        if cp.contains(xc) {
            let i = choose|i: int| 0 <= i < cp.len() && cp[i] == xc;
            lemma_chapter_pairs_scoped(b, a, n, i);
        }
    }
    assert forall|k: nat, g: Field|
        k < b.len() && k < a.len() && (g == Field::StartTime || g == Field::EndTime) implies (#[trigger] chapter_findings(om, am).contains(
        Finding::Changed(Scope::Chapter(k as usize), g),
    ) <==> (g == Field::StartTime && opt_view(b[k as int].start_time) != opt_view(a[k as int].start_time)) || (g
        == Field::EndTime && opt_view(b[k as int].end_time) != opt_view(a[k as int].end_time))) by {
        let x = Finding::Changed(Scope::Chapter(k as usize), g);
        lemma_changed_if_contains(b.len() != a.len(), Scope::Chapters, Field::Count, x);
        lemma_contains_concat(cc, cp, x);
        lemma_chapter_pair_contains(b, a, n, k, g);
    }
    assert forall|k: nat|
        k < b.len() && k < a.len() implies (#[trigger] chapter_findings(om, am).contains(
        Finding::Changed(Scope::Chapter(k as usize), Field::StartTime),
    ) <==> opt_view(b[k as int].start_time) != opt_view(a[k as int].start_time)) by {
        assert(chapter_findings(om, am).contains(Finding::Changed(Scope::Chapter(k as usize), Field::StartTime)) <==> (Field::StartTime == Field::StartTime && opt_view(b[k as int].start_time) != opt_view(a[k as int].start_time)) || (Field::StartTime
        == Field::EndTime && opt_view(b[k as int].end_time) != opt_view(a[k as int].end_time)));
    }
    assert forall|k: nat|
        k < b.len() && k < a.len() implies (#[trigger] chapter_findings(om, am).contains(
        Finding::Changed(Scope::Chapter(k as usize), Field::EndTime),
    ) <==> opt_view(b[k as int].end_time) != opt_view(a[k as int].end_time)) by {
        assert(chapter_findings(om, am).contains(Finding::Changed(Scope::Chapter(k as usize), Field::EndTime)) <==> (Field::EndTime == Field::StartTime && opt_view(b[k as int].start_time) != opt_view(a[k as int].start_time)) || (Field::EndTime
        == Field::EndTime && opt_view(b[k as int].end_time) != opt_view(a[k as int].end_time)));
    }
}

/// Every finding about the first `m` chapter pairs is about one chapter.
proof fn lemma_chapter_pairs_scoped(b: Seq<Chapter>, a: Seq<Chapter>, m: nat, i: int)
    requires
        0 <= i < chapter_pairs(b, a, m).len(),
    ensures
        chapter_pairs(b, a, m)[i] != Finding::Changed(Scope::Chapters, Field::Count),
    decreases m,
{
    if m == 0 || m > b.len() || m > a.len() {
    } else {
        let j = (m - 1) as nat;
        let scope = Scope::Chapter(j as usize);
        let head = chapter_pairs(b, a, j);
        let c1 = changed_if(opt_view(b[j as int].start_time) != opt_view(a[j as int].start_time), scope, Field::StartTime);
        let c2 = changed_if(opt_view(b[j as int].end_time) != opt_view(a[j as int].end_time), scope, Field::EndTime);
        let t = tag_findings(scope, b[j as int].tags.view_pairs(), a[j as int].tags.view_pairs());
        assert(chapter_pairs(b, a, m) == head + c1 + c2 + t);
        let x = Finding::Changed(Scope::Chapters, Field::Count);
        if i < head.len() {
            lemma_chapter_pairs_scoped(b, a, j, i);
        } else if i < head.len() + c1.len() {
        } else if i < head.len() + c1.len() + c2.len() {
        } else {
            lemma_tag_findings_no_change(scope, b[j as int].tags.view_pairs(), a[j as int].tags.view_pairs(), Scope::Chapters, Field::Count);
            assert(t[i - head.len() - c1.len() - c2.len()] == chapter_pairs(b, a, m)[i]);
            if chapter_pairs(b, a, m)[i] == x {
                assert(t.contains(x));
            }
        }
    }
}

/// An optional count as Rust's `Debug` shows it.
pub open spec fn count_shown(o: Option<u32>) -> Seq<char> {
    match o {
        Some(n) => "Some("@ + decimal(n as nat) + ")"@,
        None => "None"@,
    }
}

/// An optional size as Rust's `Debug` shows it.
pub open spec fn size_shown(o: Option<u64>) -> Seq<char> {
    match o {
        Some(n) => "Some("@ + decimal(n as nat) + ")"@,
        None => "None"@,
    }
}

/// An optional string as Rust's `Debug` shows it.
pub open spec fn text_shown(o: Option<String>) -> Seq<char> {
    match o {
        Some(t) => "Some("@ + quoted(t@) + ")"@,
        None => "None"@,
    }
}

proof fn lemma_warning_of_width(om: MediaInfo, am: MediaInfo, plan: TranscodePlan, i: usize, j: usize)
    requires
        i < om.streams@.len(),
        j < am.streams@.len(),
    ensures
        warning_text(om, am, plan, Finding::Changed(Scope::Stream(i, j), Field::Width)) == scope_text(om, am, Scope::Stream(i, j)) + ", "@ + "width"@ + ": "@ + count_shown(om.streams@[i as int].width) + " -> "@ + count_shown(am.streams@[j as int].width),
{
}

proof fn lemma_warning_of_height(om: MediaInfo, am: MediaInfo, plan: TranscodePlan, i: usize, j: usize)
    requires
        i < om.streams@.len(),
        j < am.streams@.len(),
    ensures
        warning_text(om, am, plan, Finding::Changed(Scope::Stream(i, j), Field::Height)) == scope_text(om, am, Scope::Stream(i, j)) + ", "@ + "height"@ + ": "@ + count_shown(om.streams@[i as int].height) + " -> "@ + count_shown(am.streams@[j as int].height),
{
}

proof fn lemma_warning_of_channels(om: MediaInfo, am: MediaInfo, plan: TranscodePlan, i: usize, j: usize)
    requires
        i < om.streams@.len(),
        j < am.streams@.len(),
    ensures
        warning_text(om, am, plan, Finding::Changed(Scope::Stream(i, j), Field::Channels)) == scope_text(om, am, Scope::Stream(i, j)) + ", "@ + "channels"@ + ": "@ + count_shown(om.streams@[i as int].channels) + " -> "@ + count_shown(am.streams@[j as int].channels),
{
}

proof fn lemma_warning_of_bits_per_sample(om: MediaInfo, am: MediaInfo, plan: TranscodePlan, i: usize, j: usize)
    requires
        i < om.streams@.len(),
        j < am.streams@.len(),
    ensures
        warning_text(om, am, plan, Finding::Changed(Scope::Stream(i, j), Field::BitsPerSample)) == scope_text(om, am, Scope::Stream(i, j)) + ", "@ + "bits_per_sample"@ + ": "@ + count_shown(om.streams@[i as int].bits_per_sample) + " -> "@ + count_shown(am.streams@[j as int].bits_per_sample),
{
}

proof fn lemma_warning_of_extradata_size(om: MediaInfo, am: MediaInfo, plan: TranscodePlan, i: usize, j: usize)
    requires
        i < om.streams@.len(),
        j < am.streams@.len(),
    ensures
        warning_text(om, am, plan, Finding::Changed(Scope::Stream(i, j), Field::ExtradataSize)) == scope_text(om, am, Scope::Stream(i, j)) + ", "@ + "extradata_size"@ + ": "@ + size_shown(om.streams@[i as int].extradata_size) + " -> "@ + size_shown(am.streams@[j as int].extradata_size),
{
}

proof fn lemma_warning_of_codec_name(om: MediaInfo, am: MediaInfo, plan: TranscodePlan, i: usize, j: usize)
    requires
        i < om.streams@.len(),
        j < am.streams@.len(),
    ensures
        warning_text(om, am, plan, Finding::Changed(Scope::Stream(i, j), Field::CodecName)) == scope_text(om, am, Scope::Stream(i, j)) + ", "@ + "codec_name"@ + ": "@ + text_shown(om.streams@[i as int].codec_name) + " -> "@ + text_shown(am.streams@[j as int].codec_name),
{
}

proof fn lemma_warning_of_extradata_hash(om: MediaInfo, am: MediaInfo, plan: TranscodePlan, i: usize, j: usize)
    requires
        i < om.streams@.len(),
        j < am.streams@.len(),
    ensures
        warning_text(om, am, plan, Finding::Changed(Scope::Stream(i, j), Field::ExtradataHash)) == scope_text(om, am, Scope::Stream(i, j)) + ", "@ + "extradata_hash"@ + ": "@ + text_shown(om.streams@[i as int].extradata_hash) + " -> "@ + text_shown(am.streams@[j as int].extradata_hash),
{
}

proof fn lemma_warning_of_sample_fmt(om: MediaInfo, am: MediaInfo, plan: TranscodePlan, i: usize, j: usize)
    requires
        i < om.streams@.len(),
        j < am.streams@.len(),
    ensures
        warning_text(om, am, plan, Finding::Changed(Scope::Stream(i, j), Field::SampleFmt)) == scope_text(om, am, Scope::Stream(i, j)) + ", "@ + "sample_fmt"@ + ": "@ + text_shown(om.streams@[i as int].sample_fmt) + " -> "@ + text_shown(am.streams@[j as int].sample_fmt),
{
}

proof fn lemma_warning_of_sample_rate(om: MediaInfo, am: MediaInfo, plan: TranscodePlan, i: usize, j: usize)
    requires
        i < om.streams@.len(),
        j < am.streams@.len(),
    ensures
        warning_text(om, am, plan, Finding::Changed(Scope::Stream(i, j), Field::SampleRate)) == scope_text(om, am, Scope::Stream(i, j)) + ", "@ + "sample_rate"@ + ": "@ + text_shown(om.streams@[i as int].sample_rate) + " -> "@ + text_shown(am.streams@[j as int].sample_rate),
{
}

proof fn lemma_warning_of_channel_layout(om: MediaInfo, am: MediaInfo, plan: TranscodePlan, i: usize, j: usize)
    requires
        i < om.streams@.len(),
        j < am.streams@.len(),
    ensures
        warning_text(om, am, plan, Finding::Changed(Scope::Stream(i, j), Field::ChannelLayout)) == scope_text(om, am, Scope::Stream(i, j)) + ", "@ + "channel_layout"@ + ": "@ + text_shown(om.streams@[i as int].channel_layout) + " -> "@ + text_shown(am.streams@[j as int].channel_layout),
{
}

proof fn lemma_warning_of_bits_per_raw_sample(om: MediaInfo, am: MediaInfo, plan: TranscodePlan, i: usize, j: usize)
    requires
        i < om.streams@.len(),
        j < am.streams@.len(),
    ensures
        warning_text(om, am, plan, Finding::Changed(Scope::Stream(i, j), Field::BitsPerRawSample)) == scope_text(om, am, Scope::Stream(i, j)) + ", "@ + "bits_per_raw_sample"@ + ": "@ + text_shown(om.streams@[i as int].bits_per_raw_sample) + " -> "@ + text_shown(am.streams@[j as int].bits_per_raw_sample),
{
}

proof fn lemma_warning_of_sample_aspect_ratio(om: MediaInfo, am: MediaInfo, plan: TranscodePlan, i: usize, j: usize)
    requires
        i < om.streams@.len(),
        j < am.streams@.len(),
    ensures
        warning_text(om, am, plan, Finding::Changed(Scope::Stream(i, j), Field::SampleAspectRatio)) == scope_text(om, am, Scope::Stream(i, j)) + ", "@ + "sample_aspect_ratio"@ + ": "@ + text_shown(om.streams@[i as int].sample_aspect_ratio) + " -> "@ + text_shown(am.streams@[j as int].sample_aspect_ratio),
{
}

proof fn lemma_warning_of_color_range(om: MediaInfo, am: MediaInfo, plan: TranscodePlan, i: usize, j: usize)
    requires
        i < om.streams@.len(),
        j < am.streams@.len(),
    ensures
        warning_text(om, am, plan, Finding::Changed(Scope::Stream(i, j), Field::ColorRange)) == scope_text(om, am, Scope::Stream(i, j)) + ", "@ + "color_range"@ + ": "@ + text_shown(om.streams@[i as int].color_range) + " -> "@ + text_shown(am.streams@[j as int].color_range),
{
}

proof fn lemma_warning_of_color_space(om: MediaInfo, am: MediaInfo, plan: TranscodePlan, i: usize, j: usize)
    requires
        i < om.streams@.len(),
        j < am.streams@.len(),
    ensures
        warning_text(om, am, plan, Finding::Changed(Scope::Stream(i, j), Field::ColorSpace)) == scope_text(om, am, Scope::Stream(i, j)) + ", "@ + "color_space"@ + ": "@ + text_shown(om.streams@[i as int].color_space) + " -> "@ + text_shown(am.streams@[j as int].color_space),
{
}

proof fn lemma_warning_of_color_transfer(om: MediaInfo, am: MediaInfo, plan: TranscodePlan, i: usize, j: usize)
    requires
        i < om.streams@.len(),
        j < am.streams@.len(),
    ensures
        warning_text(om, am, plan, Finding::Changed(Scope::Stream(i, j), Field::ColorTransfer)) == scope_text(om, am, Scope::Stream(i, j)) + ", "@ + "color_transfer"@ + ": "@ + text_shown(om.streams@[i as int].color_transfer) + " -> "@ + text_shown(am.streams@[j as int].color_transfer),
{
}

proof fn lemma_warning_of_color_primaries(om: MediaInfo, am: MediaInfo, plan: TranscodePlan, i: usize, j: usize)
    requires
        i < om.streams@.len(),
        j < am.streams@.len(),
    ensures
        warning_text(om, am, plan, Finding::Changed(Scope::Stream(i, j), Field::ColorPrimaries)) == scope_text(om, am, Scope::Stream(i, j)) + ", "@ + "color_primaries"@ + ": "@ + text_shown(om.streams@[i as int].color_primaries) + " -> "@ + text_shown(am.streams@[j as int].color_primaries),
{
}

proof fn lemma_warning_of_chroma_location(om: MediaInfo, am: MediaInfo, plan: TranscodePlan, i: usize, j: usize)
    requires
        i < om.streams@.len(),
        j < am.streams@.len(),
    ensures
        warning_text(om, am, plan, Finding::Changed(Scope::Stream(i, j), Field::ChromaLocation)) == scope_text(om, am, Scope::Stream(i, j)) + ", "@ + "chroma_location"@ + ": "@ + text_shown(om.streams@[i as int].chroma_location) + " -> "@ + text_shown(am.streams@[j as int].chroma_location),
{
}

proof fn lemma_warning_of_field_order(om: MediaInfo, am: MediaInfo, plan: TranscodePlan, i: usize, j: usize)
    requires
        i < om.streams@.len(),
        j < am.streams@.len(),
    ensures
        warning_text(om, am, plan, Finding::Changed(Scope::Stream(i, j), Field::FieldOrder)) == scope_text(om, am, Scope::Stream(i, j)) + ", "@ + "field_order"@ + ": "@ + text_shown(om.streams@[i as int].field_order) + " -> "@ + text_shown(am.streams@[j as int].field_order),
{
}

/// The warning for a changed field of a stream pair names that field and shows
/// that same field's value in the input stream, then in the output stream.
pub proof fn law_field_warnings_show_that_fields_values(om: MediaInfo, am: MediaInfo, plan: TranscodePlan, i: usize, j: usize)
    requires
        i < om.streams@.len(),
        j < am.streams@.len(),
    ensures
        warning_text(om, am, plan, Finding::Changed(Scope::Stream(i, j), Field::Width)) == scope_text(om, am, Scope::Stream(i, j)) + ", "@ + "width"@ + ": "@ + count_shown(om.streams@[i as int].width) + " -> "@ + count_shown(am.streams@[j as int].width),
        warning_text(om, am, plan, Finding::Changed(Scope::Stream(i, j), Field::Height)) == scope_text(om, am, Scope::Stream(i, j)) + ", "@ + "height"@ + ": "@ + count_shown(om.streams@[i as int].height) + " -> "@ + count_shown(am.streams@[j as int].height),
        warning_text(om, am, plan, Finding::Changed(Scope::Stream(i, j), Field::Channels)) == scope_text(om, am, Scope::Stream(i, j)) + ", "@ + "channels"@ + ": "@ + count_shown(om.streams@[i as int].channels) + " -> "@ + count_shown(am.streams@[j as int].channels),
        warning_text(om, am, plan, Finding::Changed(Scope::Stream(i, j), Field::BitsPerSample)) == scope_text(om, am, Scope::Stream(i, j)) + ", "@ + "bits_per_sample"@ + ": "@ + count_shown(om.streams@[i as int].bits_per_sample) + " -> "@ + count_shown(am.streams@[j as int].bits_per_sample),
        warning_text(om, am, plan, Finding::Changed(Scope::Stream(i, j), Field::ExtradataSize)) == scope_text(om, am, Scope::Stream(i, j)) + ", "@ + "extradata_size"@ + ": "@ + size_shown(om.streams@[i as int].extradata_size) + " -> "@ + size_shown(am.streams@[j as int].extradata_size),
        warning_text(om, am, plan, Finding::Changed(Scope::Stream(i, j), Field::CodecName)) == scope_text(om, am, Scope::Stream(i, j)) + ", "@ + "codec_name"@ + ": "@ + text_shown(om.streams@[i as int].codec_name) + " -> "@ + text_shown(am.streams@[j as int].codec_name),
        warning_text(om, am, plan, Finding::Changed(Scope::Stream(i, j), Field::ExtradataHash)) == scope_text(om, am, Scope::Stream(i, j)) + ", "@ + "extradata_hash"@ + ": "@ + text_shown(om.streams@[i as int].extradata_hash) + " -> "@ + text_shown(am.streams@[j as int].extradata_hash),
        warning_text(om, am, plan, Finding::Changed(Scope::Stream(i, j), Field::SampleFmt)) == scope_text(om, am, Scope::Stream(i, j)) + ", "@ + "sample_fmt"@ + ": "@ + text_shown(om.streams@[i as int].sample_fmt) + " -> "@ + text_shown(am.streams@[j as int].sample_fmt),
        warning_text(om, am, plan, Finding::Changed(Scope::Stream(i, j), Field::SampleRate)) == scope_text(om, am, Scope::Stream(i, j)) + ", "@ + "sample_rate"@ + ": "@ + text_shown(om.streams@[i as int].sample_rate) + " -> "@ + text_shown(am.streams@[j as int].sample_rate),
        warning_text(om, am, plan, Finding::Changed(Scope::Stream(i, j), Field::ChannelLayout)) == scope_text(om, am, Scope::Stream(i, j)) + ", "@ + "channel_layout"@ + ": "@ + text_shown(om.streams@[i as int].channel_layout) + " -> "@ + text_shown(am.streams@[j as int].channel_layout),
        warning_text(om, am, plan, Finding::Changed(Scope::Stream(i, j), Field::BitsPerRawSample)) == scope_text(om, am, Scope::Stream(i, j)) + ", "@ + "bits_per_raw_sample"@ + ": "@ + text_shown(om.streams@[i as int].bits_per_raw_sample) + " -> "@ + text_shown(am.streams@[j as int].bits_per_raw_sample),
        warning_text(om, am, plan, Finding::Changed(Scope::Stream(i, j), Field::SampleAspectRatio)) == scope_text(om, am, Scope::Stream(i, j)) + ", "@ + "sample_aspect_ratio"@ + ": "@ + text_shown(om.streams@[i as int].sample_aspect_ratio) + " -> "@ + text_shown(am.streams@[j as int].sample_aspect_ratio),
        warning_text(om, am, plan, Finding::Changed(Scope::Stream(i, j), Field::ColorRange)) == scope_text(om, am, Scope::Stream(i, j)) + ", "@ + "color_range"@ + ": "@ + text_shown(om.streams@[i as int].color_range) + " -> "@ + text_shown(am.streams@[j as int].color_range),
        warning_text(om, am, plan, Finding::Changed(Scope::Stream(i, j), Field::ColorSpace)) == scope_text(om, am, Scope::Stream(i, j)) + ", "@ + "color_space"@ + ": "@ + text_shown(om.streams@[i as int].color_space) + " -> "@ + text_shown(am.streams@[j as int].color_space),
        warning_text(om, am, plan, Finding::Changed(Scope::Stream(i, j), Field::ColorTransfer)) == scope_text(om, am, Scope::Stream(i, j)) + ", "@ + "color_transfer"@ + ": "@ + text_shown(om.streams@[i as int].color_transfer) + " -> "@ + text_shown(am.streams@[j as int].color_transfer),
        warning_text(om, am, plan, Finding::Changed(Scope::Stream(i, j), Field::ColorPrimaries)) == scope_text(om, am, Scope::Stream(i, j)) + ", "@ + "color_primaries"@ + ": "@ + text_shown(om.streams@[i as int].color_primaries) + " -> "@ + text_shown(am.streams@[j as int].color_primaries),
        warning_text(om, am, plan, Finding::Changed(Scope::Stream(i, j), Field::ChromaLocation)) == scope_text(om, am, Scope::Stream(i, j)) + ", "@ + "chroma_location"@ + ": "@ + text_shown(om.streams@[i as int].chroma_location) + " -> "@ + text_shown(am.streams@[j as int].chroma_location),
        warning_text(om, am, plan, Finding::Changed(Scope::Stream(i, j), Field::FieldOrder)) == scope_text(om, am, Scope::Stream(i, j)) + ", "@ + "field_order"@ + ": "@ + text_shown(om.streams@[i as int].field_order) + " -> "@ + text_shown(am.streams@[j as int].field_order),
{
    lemma_warning_of_width(om, am, plan, i, j);
    lemma_warning_of_height(om, am, plan, i, j);
    lemma_warning_of_channels(om, am, plan, i, j);
    lemma_warning_of_bits_per_sample(om, am, plan, i, j);
    lemma_warning_of_extradata_size(om, am, plan, i, j);
    lemma_warning_of_codec_name(om, am, plan, i, j);
    lemma_warning_of_extradata_hash(om, am, plan, i, j);
    lemma_warning_of_sample_fmt(om, am, plan, i, j);
    lemma_warning_of_sample_rate(om, am, plan, i, j);
    lemma_warning_of_channel_layout(om, am, plan, i, j);
    lemma_warning_of_bits_per_raw_sample(om, am, plan, i, j);
    lemma_warning_of_sample_aspect_ratio(om, am, plan, i, j);
    lemma_warning_of_color_range(om, am, plan, i, j);
    lemma_warning_of_color_space(om, am, plan, i, j);
    lemma_warning_of_color_transfer(om, am, plan, i, j);
    lemma_warning_of_color_primaries(om, am, plan, i, j);
    lemma_warning_of_chroma_location(om, am, plan, i, j);
    lemma_warning_of_field_order(om, am, plan, i, j);
}

/// The warnings for the container's duration and a chapter's start and end time
/// show those values in the input, then in the output; the chapter-count warning
/// shows both counts.
pub proof fn law_container_and_chapter_warnings_show_their_values(om: MediaInfo, am: MediaInfo, plan: TranscodePlan, k: usize)
    requires
        k < om.chapters@.len(),
        k < am.chapters@.len(),
    ensures
        warning_text(om, am, plan, Finding::Changed(Scope::Container, Field::Duration)) == "container"@ + ", "@
            + "duration"@ + ": "@ + text_shown(om.format.duration) + " -> "@ + text_shown(am.format.duration),
        warning_text(om, am, plan, Finding::Changed(Scope::Chapters, Field::Count)) == "chapters"@ + ", "@ + "count"@
            + ": "@ + decimal(om.chapters@.len()) + " -> "@ + decimal(am.chapters@.len()),
        warning_text(om, am, plan, Finding::Changed(Scope::Chapter(k), Field::StartTime)) == "chapter #"@ + decimal(
            k as nat,
        ) + ", "@ + "start_time"@ + ": "@ + text_shown(om.chapters@[k as int].start_time) + " -> "@ + text_shown(
            am.chapters@[k as int].start_time,
        ),
        warning_text(om, am, plan, Finding::Changed(Scope::Chapter(k), Field::EndTime)) == "chapter #"@ + decimal(
            k as nat,
        ) + ", "@ + "end_time"@ + ": "@ + text_shown(om.chapters@[k as int].end_time) + " -> "@ + text_shown(
            am.chapters@[k as int].end_time,
        ),
{
}

/// Looking a key up ignoring ASCII case finds the value of the first tag whose key
/// matches, and nothing when no key matches.
pub proof fn law_tag_lookup_finds_first_match(e: TagView, key: Seq<char>)
    ensures
        value_ignoring_case(e, key) is None <==> !has_key_ignoring_case(e, key),
        value_ignoring_case(e, key) matches Some(v) ==> exists|i: int|
            0 <= i < e.len() && crate::media::same_ignoring_ascii_case(#[trigger] e[i].0, key) && e[i].1 == v
                && forall|j: int| 0 <= j < i ==> !crate::media::same_ignoring_ascii_case(#[trigger] e[j].0, key),
    decreases e.len(),
{
    if e.len() > 0 {
        let r = e.drop_first();
        law_tag_lookup_finds_first_match(r, key);
        if crate::media::same_ignoring_ascii_case(e[0].0, key) {
            assert(has_key_ignoring_case(e, key));
            let v = e[0].1;
            assert(forall|j: int| 0 <= j < 0 ==> !crate::media::same_ignoring_ascii_case(#[trigger] e[j].0, key));
        } else {
            if has_key_ignoring_case(e, key) {
                let i = choose|i: int| 0 <= i < e.len() && crate::media::same_ignoring_ascii_case(#[trigger] e[i].0, key);
                assert(i > 0);
                assert(r[i - 1] == e[i]);
                assert(has_key_ignoring_case(r, key));
            }
            if has_key_ignoring_case(r, key) {
                let i = choose|i: int| 0 <= i < r.len() && crate::media::same_ignoring_ascii_case(#[trigger] r[i].0, key);
                assert(e[i + 1] == r[i]);
            }
            if value_ignoring_case(e, key) is Some {
                let v = value_ignoring_case(e, key)->0;
                let i = choose|i: int|
                    0 <= i < r.len() && crate::media::same_ignoring_ascii_case(#[trigger] r[i].0, key) && r[i].1 == v
                        && forall|j: int| 0 <= j < i ==> !crate::media::same_ignoring_ascii_case(#[trigger] r[j].0, key);
                assert(e[i + 1] == r[i]);
                assert forall|j: int| 0 <= j < i + 1 implies !crate::media::same_ignoring_ascii_case(#[trigger] e[j].0, key) by {
                    if j > 0 {
                        assert(e[j] == r[j - 1]);
                    }
                }
            }
        }
    }
}

proof fn lemma_changed_tags_contains(s: Scope, b: TagView, a: TagView, n: nat, k: nat)
    requires
        b.len() <= usize::MAX,
        k < b.len(),
        n <= b.len(),
    ensures
        changed_tags(s, b, a, n).contains(Finding::TagChanged(s, k as usize)) <==> k < n && value_ignoring_case(
            a,
            b[k as int].0,
        ) != Some(b[k as int].1),
    decreases n,
{
    let x = Finding::TagChanged(s, k as usize);
    if n == 0 {
        assert(changed_tags(s, b, a, n) =~= Seq::<Finding>::empty());
    } else {
        let j = (n - 1) as nat;
        lemma_changed_tags_contains(s, b, a, j, k);
        let tail = if value_ignoring_case(a, b[j as int].0) == Some(b[j as int].1) {
            Seq::<Finding>::empty()
        } else {
            seq![Finding::TagChanged(s, j as usize)]
        };
        assert(changed_tags(s, b, a, n) == changed_tags(s, b, a, j) + tail);
        lemma_contains_concat(changed_tags(s, b, a, j), tail, x);
        assert((k as usize) as nat == k);
        assert((j as usize) as nat == j);
        if tail.len() > 0 {
            assert(tail.contains(x) <==> tail[0] == x);
        }
    }
}

proof fn lemma_added_tags_contains(s: Scope, b: TagView, a: TagView, n: nat, k: nat)
    requires
        a.len() <= usize::MAX,
        k < a.len(),
        n <= a.len(),
    ensures
        added_tags(s, b, a, n).contains(Finding::TagAdded(s, k as usize)) <==> k < n && !has_key_ignoring_case(
            b,
            a[k as int].0,
        ),
    decreases n,
{
    let x = Finding::TagAdded(s, k as usize);
    if n == 0 {
        assert(added_tags(s, b, a, n) =~= Seq::<Finding>::empty());
    } else {
        let j = (n - 1) as nat;
        lemma_added_tags_contains(s, b, a, j, k);
        let tail = if has_key_ignoring_case(b, a[j as int].0) {
            Seq::<Finding>::empty()
        } else {
            seq![Finding::TagAdded(s, j as usize)]
        };
        assert(added_tags(s, b, a, n) == added_tags(s, b, a, j) + tail);
        lemma_contains_concat(added_tags(s, b, a, j), tail, x);
        assert((k as usize) as nat == k);
        assert((j as usize) as nat == j);
        if tail.len() > 0 {
            assert(tail.contains(x) <==> tail[0] == x);
        }
    }
}

proof fn lemma_no_added_in_changed(s: Scope, b: TagView, a: TagView, n: nat, x: Finding)
    requires
        x is TagAdded,
    ensures
        !changed_tags(s, b, a, n).contains(x),
    decreases n,
{
    if n > 0 && n <= b.len() {
        let j = (n - 1) as nat;
        lemma_no_added_in_changed(s, b, a, j, x);
        let tail = if value_ignoring_case(a, b[j as int].0) == Some(b[j as int].1) {
            Seq::<Finding>::empty()
        } else {
            seq![Finding::TagChanged(s, j as usize)]
        };
        assert(changed_tags(s, b, a, n) == changed_tags(s, b, a, j) + tail);
        lemma_contains_concat(changed_tags(s, b, a, j), tail, x);
        if tail.len() > 0 {
            assert(tail[0] != x);
        }
    }
}

proof fn lemma_no_changed_in_added(s: Scope, b: TagView, a: TagView, n: nat, x: Finding)
    requires
        x is TagChanged,
    ensures
        !added_tags(s, b, a, n).contains(x),
    decreases n,
{
    if n > 0 && n <= a.len() {
        let j = (n - 1) as nat;
        lemma_no_changed_in_added(s, b, a, j, x);
        let tail = if has_key_ignoring_case(b, a[j as int].0) {
            Seq::<Finding>::empty()
        } else {
            seq![Finding::TagAdded(s, j as usize)]
        };
        assert(added_tags(s, b, a, n) == added_tags(s, b, a, j) + tail);
        lemma_contains_concat(added_tags(s, b, a, j), tail, x);
        if tail.len() > 0 {
            assert(tail[0] != x);
        }
    }
}

/// Tags are compared key by key, ignoring ASCII case in keys: an expected tag is
/// reported exactly when the output's tag under its key is missing or holds another
/// value, and an output tag is reported as added exactly when no expected tag has
/// its key.
pub proof fn law_tags_report_each_key(s: Scope, before: TagView, after: TagView)
    requires
        before.len() <= usize::MAX,
        after.len() <= usize::MAX,
    ensures
        forall|k: nat|
            k < before.len() ==> (#[trigger] tag_findings(s, before, after).contains(Finding::TagChanged(s, k as usize))
                <==> value_ignoring_case(after, before[k as int].0) != Some(before[k as int].1)),
        forall|k: nat|
            k < after.len() ==> (#[trigger] tag_findings(s, before, after).contains(Finding::TagAdded(s, k as usize))
                <==> !has_key_ignoring_case(before, after[k as int].0)),
{
    let c = changed_tags(s, before, after, before.len());
    let d = added_tags(s, before, after, after.len());
    assert forall|k: nat| k < before.len() implies (#[trigger] tag_findings(s, before, after).contains(
        Finding::TagChanged(s, k as usize),
    ) <==> value_ignoring_case(after, before[k as int].0) != Some(before[k as int].1)) by {
        let x = Finding::TagChanged(s, k as usize);
        lemma_changed_tags_contains(s, before, after, before.len(), k);
        lemma_no_changed_in_added(s, before, after, after.len(), x);
        lemma_contains_concat(c, d, x);
    }
    assert forall|k: nat| k < after.len() implies (#[trigger] tag_findings(s, before, after).contains(
        Finding::TagAdded(s, k as usize),
    ) <==> !has_key_ignoring_case(before, after[k as int].0)) by {
        let x = Finding::TagAdded(s, k as usize);
        lemma_added_tags_contains(s, before, after, after.len(), k);
        lemma_no_added_in_changed(s, before, after, before.len(), x);
        lemma_contains_concat(c, d, x);
    }
}

/// Every attachment that comes from an attachment stream is dumped, before the
/// input is read, to the very file it is attached from: `-dump_attachment:N PATH`
/// with N its input stream; every cover is extracted from its input stream to the
/// file it is attached from; and nothing else is dumped or extracted.
pub proof fn law_attachments_are_dumped_where_they_are_attached(dir: Seq<char>, atts: Seq<PlannedAttachment>)
    ensures
        forall|k: int|
            0 <= k < atts.len() && #[trigger] atts[k].input == AttachmentInput::AttachmentStream ==> exists|q: int|
                0 <= q && q + 1 < dump_args(dir, atts).len() && #[trigger] dump_args(dir, atts)[q] == "-dump_attachment:"@
                    + decimal(atts[k].input_index as nat) && dump_args(dir, atts)[q + 1] == attachment_path(
                    dir,
                    atts[k].input_index,
                ),
        forall|k: int|
            0 <= k < atts.len() && #[trigger] atts[k].input == AttachmentInput::CoverFrame ==> cover_jobs(
                dir,
                atts,
            ).contains((atts[k].input_index, attachment_path(dir, atts[k].input_index))),
        forall|c: (usize, Seq<char>)|
            #[trigger] cover_jobs(dir, atts).contains(c) ==> exists|k: int|
                0 <= k < atts.len() && #[trigger] atts[k].input == AttachmentInput::CoverFrame && c == (
                    atts[k].input_index,
                    attachment_path(dir, atts[k].input_index),
                ),
    decreases atts.len(),
{
    if atts.len() > 0 {
        let init = atts.drop_last();
        law_attachments_are_dumped_where_they_are_attached(dir, init);
        let a = atts.last();
        let n = atts.len() - 1;
        let dh = dump_args(dir, init);
        let dt = if a.input == AttachmentInput::AttachmentStream {
            seq!["-dump_attachment:"@ + decimal(a.input_index as nat), attachment_path(dir, a.input_index)]
        } else {
            Seq::<Seq<char>>::empty()
        };
        assert(dump_args(dir, atts) == dh + dt);
        let ch = cover_jobs(dir, init);
        let ct = if a.input == AttachmentInput::CoverFrame {
            seq![(a.input_index, attachment_path(dir, a.input_index))]
        } else {
            Seq::<(usize, Seq<char>)>::empty()
        };
        assert(cover_jobs(dir, atts) == ch + ct);
        assert forall|k: int|
            0 <= k < atts.len() && #[trigger] atts[k].input == AttachmentInput::AttachmentStream implies exists|q: int|
                0 <= q && q + 1 < dump_args(dir, atts).len() && #[trigger] dump_args(dir, atts)[q] == "-dump_attachment:"@
                    + decimal(atts[k].input_index as nat) && dump_args(dir, atts)[q + 1] == attachment_path(
                    dir,
                    atts[k].input_index,
                ) by {
            if k < n {
                assert(init[k] == atts[k]);
                let q = choose|q: int|
                    0 <= q && q + 1 < dh.len() && #[trigger] dh[q] == "-dump_attachment:"@ + decimal(init[k].input_index as nat)
                        && dh[q + 1] == attachment_path(dir, init[k].input_index);
                assert(dump_args(dir, atts)[q] == dh[q]);
                assert(dump_args(dir, atts)[q + 1] == dh[q + 1]);
            } else {
                let q = dh.len() as int;
                assert(dump_args(dir, atts)[q] == dt[0]);
                assert(dump_args(dir, atts)[q + 1] == dt[1]);
            }
        }
        assert forall|k: int|
            0 <= k < atts.len() && #[trigger] atts[k].input == AttachmentInput::CoverFrame implies cover_jobs(
                dir,
                atts,
            ).contains((atts[k].input_index, attachment_path(dir, atts[k].input_index))) by {
            let c = (atts[k].input_index, attachment_path(dir, atts[k].input_index));
            if k < n {
                assert(init[k] == atts[k]);
                let i = choose|i: int| 0 <= i < ch.len() && ch[i] == c;
                assert(cover_jobs(dir, atts)[i] == c);
            } else {
                assert(cover_jobs(dir, atts)[ch.len() as int] == c);
            }
        }
        assert forall|c: (usize, Seq<char>)| #[trigger] cover_jobs(dir, atts).contains(c) implies exists|k: int|
            0 <= k < atts.len() && #[trigger] atts[k].input == AttachmentInput::CoverFrame && c == (
                atts[k].input_index,
                attachment_path(dir, atts[k].input_index),
            ) by {
            let i = choose|i: int| 0 <= i < cover_jobs(dir, atts).len() && cover_jobs(dir, atts)[i] == c;
            if i < ch.len() {
                assert(ch[i] == c);
                assert(ch.contains(c));
                let k = choose|k: int|
                    0 <= k < init.len() && #[trigger] init[k].input == AttachmentInput::CoverFrame && c == (
                        init[k].input_index,
                        attachment_path(dir, init[k].input_index),
                    );
                assert(atts[k] == init[k]);
            } else {
                assert(ct[i - ch.len()] == c);
                assert(atts[n] == a);
            }
        }
    }
}

/// Rounding half to even lands within half a step of the exact quotient.
proof fn lemma_round_nearest(a: nat, d: nat)
    requires
        d > 0,
    ensures
        2 * round_half_even(a, d) * d <= 2 * a + d,
        2 * a <= 2 * round_half_even(a, d) * d + d,
{
    let q = a / d;
    let r = a % d;
    vstd::arithmetic::div_mod::lemma_fundamental_div_mod(a as int, d as int);
    assert(a == q * d + r);
    assert(0 <= r < d);
    let n = round_half_even(a, d);
    if 2 * r > d || (2 * r == d && q % 2 == 1) {
        assert(n == q + 1);
        assert(n * d == q * d + d) by (nonlinear_arith)
            requires
                n == q + 1,
        ;
    } else {
        assert(n == q);
    }
    assert(2 * n * d == 2 * (n * d)) by (nonlinear_arith);
}

/// A number written with one decimal reads back as that number of tenths.
proof fn lemma_tenths_read_back(n: nat)
    ensures
        ({
            let w = decimal(n / 10);
            let f = decimal(n % 10);
            &&& tenths(n) == w + "."@ + f
            &&& w.len() > 0 && all_digits(w) && f.len() == 1 && all_digits(f)
            &&& digits_value(w) * 10 + digits_value(f) == n
        }),
{
    crate::laws::lemma_decimal_reads_back(n / 10);
    crate::laws::lemma_decimal_reads_back(n % 10);
    lemma_decimal_shape(n % 10);
}

/// Below 2^53 bytes a size is exact as a double.
proof fn lemma_small_sizes_exact(b: nat)
    requires
        b < 0x20_0000_0000_0000,
    ensures
        as_double(b) == b,
{
    assert(shift_of(b) == 0);
}

/// A size is shown in GiB with one decimal from 1 GiB on, in whole MiB from 10 MiB
/// on, and in MiB with one decimal below; the number shown is the size in that unit
/// rounded to the nearest shown digit (up to half a unit of the last digit). Sizes
/// below 2^53 bytes are taken exactly.
pub proof fn law_sizes_show_the_nearest_value(b: nat)
    ensures
        b < 0x20_0000_0000_0000 ==> as_double(b) == b,
        as_double(b) >= 0x4000_0000 ==> exists|w: Seq<char>, f: Seq<char>|
            #![trigger digits_value(w), digits_value(f)]
            size_text(b) == w + "."@ + f + " GiB"@ && w.len() > 0 && all_digits(w) && f.len() == 1 && all_digits(f)
                && 2 * (digits_value(w) * 10 + digits_value(f)) * 0x4000_0000 <= 20 * as_double(b) + 0x4000_0000 && 20
                * as_double(b) <= 2 * (digits_value(w) * 10 + digits_value(f)) * 0x4000_0000 + 0x4000_0000,
        0xA0_0000 <= as_double(b) < 0x4000_0000 ==> exists|w: Seq<char>|
            #![trigger digits_value(w)]
            size_text(b) == w + " MiB"@ && w.len() > 0 && all_digits(w) && 2 * digits_value(w) * 0x10_0000 <= 2
                * as_double(b) + 0x10_0000 && 2 * as_double(b) <= 2 * digits_value(w) * 0x10_0000 + 0x10_0000,
        as_double(b) < 0xA0_0000 ==> exists|w: Seq<char>, f: Seq<char>|
            #![trigger digits_value(w), digits_value(f)]
            size_text(b) == w + "."@ + f + " MiB"@ && w.len() > 0 && all_digits(w) && f.len() == 1 && all_digits(f)
                && 2 * (digits_value(w) * 10 + digits_value(f)) * 0x10_0000 <= 20 * as_double(b) + 0x10_0000 && 20
                * as_double(b) <= 2 * (digits_value(w) * 10 + digits_value(f)) * 0x10_0000 + 0x10_0000,
{
    if b < 0x20_0000_0000_0000 {
        lemma_small_sizes_exact(b);
    }
    let f = as_double(b);
    if f >= 0x4000_0000 {
        let n = round_half_even(10 * f, 0x4000_0000);
        lemma_round_nearest(10 * f, 0x4000_0000);
        lemma_tenths_read_back(n);
        let w = decimal(n / 10);
        let g = decimal(n % 10);
        assert(size_text(b) == w + "."@ + g + " GiB"@);
        assert(digits_value(w) * 10 + digits_value(g) == n);
    } else if f >= 0xA0_0000 {
        let n = round_half_even(f, 0x10_0000);
        lemma_round_nearest(f, 0x10_0000);
        crate::laws::lemma_decimal_reads_back(n);
        let w = decimal(n);
        assert(size_text(b) == w + " MiB"@);
        assert(digits_value(w) == n);
    } else {
        let n = round_half_even(10 * f, 0x10_0000);
        lemma_round_nearest(10 * f, 0x10_0000);
        lemma_tenths_read_back(n);
        let w = decimal(n / 10);
        let g = decimal(n % 10);
        assert(size_text(b) == w + "."@ + g + " MiB"@);
        assert(digits_value(w) * 10 + digits_value(g) == n);
    }
}

/// A lost input stream is reported by its kind and input index, and a stream only
/// the output has by its kind and output index.
pub proof fn law_missing_and_added_streams_name_themselves(om: MediaInfo, am: MediaInfo, plan: TranscodePlan, i: usize, j: usize)
    requires
        i < om.streams@.len(),
        j < am.streams@.len(),
    ensures
        warning_text(om, am, plan, Finding::Missing(i)) == crate::media::stream_kind(om.streams@[i as int])
            + " stream #"@ + decimal(om.streams@[i as int].index as nat) + ": missing from output"@,
        warning_text(om, am, plan, Finding::Added(j)) == crate::media::stream_kind(am.streams@[j as int])
            + " stream #"@ + decimal(am.streams@[j as int].index as nat) + ": added in output"@,
        scope_text(om, am, Scope::Stream(i, j)) == crate::media::stream_kind(om.streams@[i as int]) + " stream #"@
            + decimal(om.streams@[i as int].index as nat) + " -> #"@ + decimal(am.streams@[j as int].index as nat),
{
}

/// Whether a finding is about a whole stream: lost, or only in the output.
pub open spec fn about_whole_stream(x: Finding) -> bool {
    x is Missing || x is Added
}

proof fn lemma_changed_if_no_stream(d: bool, s: Scope, g: Field, x: Finding)
    requires
        about_whole_stream(x),
    ensures
        !changed_if(d, s, g).contains(x),
{
    if d {
        assert(changed_if(d, s, g)[0] != x);
    }
}

proof fn lemma_changed_tags_no_stream(s: Scope, b: TagView, a: TagView, n: nat, x: Finding)
    requires
        about_whole_stream(x),
    ensures
        !changed_tags(s, b, a, n).contains(x),
    decreases n,
{
    if n > 0 && n <= b.len() {
        let j = (n - 1) as nat;
        lemma_changed_tags_no_stream(s, b, a, j, x);
        let tail = if value_ignoring_case(a, b[j as int].0) == Some(b[j as int].1) {
            Seq::<Finding>::empty()
        } else {
            seq![Finding::TagChanged(s, j as usize)]
        };
        assert(changed_tags(s, b, a, n) == changed_tags(s, b, a, j) + tail);
        lemma_contains_concat(changed_tags(s, b, a, j), tail, x);
        if tail.len() > 0 {
            assert(tail[0] != x);
        }
    }
}

proof fn lemma_added_tags_no_stream(s: Scope, b: TagView, a: TagView, n: nat, x: Finding)
    requires
        about_whole_stream(x),
    ensures
        !added_tags(s, b, a, n).contains(x),
    decreases n,
{
    if n > 0 && n <= a.len() {
        let j = (n - 1) as nat;
        lemma_added_tags_no_stream(s, b, a, j, x);
        let tail = if has_key_ignoring_case(b, a[j as int].0) {
            Seq::<Finding>::empty()
        } else {
            seq![Finding::TagAdded(s, j as usize)]
        };
        assert(added_tags(s, b, a, n) == added_tags(s, b, a, j) + tail);
        lemma_contains_concat(added_tags(s, b, a, j), tail, x);
        if tail.len() > 0 {
            assert(tail[0] != x);
        }
    }
}

proof fn lemma_tags_no_stream(s: Scope, b: TagView, a: TagView, x: Finding)
    requires
        about_whole_stream(x),
    ensures
        !tag_findings(s, b, a).contains(x),
{
    lemma_changed_tags_no_stream(s, b, a, b.len(), x);
    lemma_added_tags_no_stream(s, b, a, a.len(), x);
    lemma_contains_concat(changed_tags(s, b, a, b.len()), added_tags(s, b, a, a.len()), x);
}

proof fn lemma_pair_no_stream(om: MediaInfo, am: MediaInfo, copy_video: bool, plan: TranscodePlan, i: usize, j: usize, x: Finding)
    requires
        about_whole_stream(x),
    ensures
        !pair_findings(om, am, copy_video, plan, i, j).contains(x),
{
    let b = om.streams@[i as int];
    let a = am.streams@[j as int];
    let s = Scope::Stream(i, j);
    let expected = match crate::compare::planned_tags(plan.attachments@, b.index) {
        Some(t) => t,
        None => b.tags.view_pairs(),
    };
    let t = tag_findings(s, expected, a.tags.view_pairs());
    let d = changed_if(set_flags(b.disposition@) != set_flags(a.disposition@), s, Field::Disposition);
    let sd = changed_if(
        sorted_by_type(side_views(b.side_data_list@)) != sorted_by_type(side_views(a.side_data_list@)),
        s,
        Field::SideData,
    );
    let c = if is_copied(copy_video, b) {
        copied_findings(s, b, a)
    } else {
        seq![]
    };
    let k = if opt_view(b.codec_type) == Some("audio"@) {
        audio_findings(s, b, a)
    } else if opt_view(b.codec_type) == Some("video"@) {
        video_findings(s, b, a) + layout_findings(s, om, am, b, a)
    } else {
        seq![]
    };
    assert(pair_findings(om, am, copy_video, plan, i, j) == t + d + sd + c + k);
    lemma_tags_no_stream(s, expected, a.tags.view_pairs(), x);
    lemma_changed_if_no_stream(set_flags(b.disposition@) != set_flags(a.disposition@), s, Field::Disposition, x);
    lemma_changed_if_no_stream(
        sorted_by_type(side_views(b.side_data_list@)) != sorted_by_type(side_views(a.side_data_list@)),
        s,
        Field::SideData,
        x,
    );
    lemma_copy_contains(s, b, a, x);
    lemma_video_contains(s, b, a, x);
    lemma_audio_contains(s, b, a, x);
    if c.len() > 0 {
        assert(c == copied_findings(s, b, a));
    }
    let l = layout_findings(s, om, am, b, a);
    assert(!l.contains(x)) by {
        let src = match crate::media::stream_descriptor(om, b) {
            Some(p) => crate::media::samples_of(p),
            None => None,
        };
        let dst = match crate::media::stream_descriptor(am, a) {
            Some(p) => crate::media::samples_of(p),
            None => None,
        };
        match (src, dst) {
            (Some(u), Some(v)) => {
                lemma_changed_if_no_stream(u.0 != v.0, s, Field::ComponentDepths, x);
                lemma_changed_if_no_stream(u.1 != v.1, s, Field::Chroma, x);
                lemma_changed_if_no_stream(u.2 != v.2, s, Field::Alpha, x);
                lemma_contains_concat(changed_if(u.0 != v.0, s, Field::ComponentDepths), changed_if(u.1 != v.1, s, Field::Chroma), x);
                lemma_contains_concat(
                    changed_if(u.0 != v.0, s, Field::ComponentDepths) + changed_if(u.1 != v.1, s, Field::Chroma),
                    changed_if(u.2 != v.2, s, Field::Alpha),
                    x,
                );
            },
            _ => {
                assert(seq![Finding::LayoutUnknown(s)][0] != x);
            },
        }
    }
    lemma_contains_concat(video_findings(s, b, a), l, x);
    assert(!k.contains(x));
    lemma_contains_concat(t, d, x);
    lemma_contains_concat(t + d, sd, x);
    lemma_contains_concat(t + d + sd, c, x);
    lemma_contains_concat(t + d + sd + c, k, x);
}

/// When the first unmatched output stream of a kind lies past the end, none is left.
proof fn lemma_kind_absent(am: MediaInfo, remaining: Seq<usize>, kind: Seq<char>)
    requires
        kind_position(am, remaining, kind) >= remaining.len(),
    ensures
        forall|m: int| 0 <= m < remaining.len() ==> crate::media::stream_kind(am.streams@[#[trigger] remaining[m] as int]) != kind,
    decreases remaining.len(),
{
    if remaining.len() > 0 {
        lemma_kind_absent(am, remaining.drop_first(), kind);
        assert forall|m: int| 0 <= m < remaining.len() implies crate::media::stream_kind(am.streams@[#[trigger] remaining[m] as int]) != kind by {
            if m > 0 {
                assert(remaining[m] == remaining.drop_first()[m - 1]);
            }
        }
    }
}

/// Matching never brings an output stream back: what is unmatched after `n` input
/// streams was unmatched after `m <= n`; and a lost input stream `i` found no
/// unmatched output stream of its kind when its turn came.
proof fn lemma_matching_history(om: MediaInfo, am: MediaInfo, copy_video: bool, plan: TranscodePlan, m: nat, n: nat)
    requires
        m <= n <= om.streams@.len(),
        om.streams@.len() <= usize::MAX,
    ensures
        forall|x: usize| match_streams(om, am, copy_video, plan, n).0.contains(x) ==> #[trigger] match_streams(
            om,
            am,
            copy_video,
            plan,
            m,
        ).0.contains(x),
        forall|i: usize|
            #[trigger] match_streams(om, am, copy_video, plan, n).1.contains(Finding::Missing(i)) ==> i < n && kind_position(
                am,
                match_streams(om, am, copy_video, plan, i as nat).0,
                crate::media::stream_kind(om.streams@[i as int]),
            ) >= match_streams(om, am, copy_video, plan, i as nat).0.len(),
    decreases n,
{
    if n > 0 {
        let k = (n - 1) as nat;
        let (remaining, findings, pairs) = match_streams(om, am, copy_video, plan, k);
        let i0 = k as usize;
        assert(i0 as nat == k);
        let b = om.streams@[i0 as int];
        let q = kind_position(am, remaining, crate::media::stream_kind(b));
        if m < n {
            lemma_matching_history(om, am, copy_video, plan, m, k);
        }
        lemma_matching_history(om, am, copy_video, plan, k, k);
        if q >= remaining.len() {
            assert forall|i: usize| #[trigger] match_streams(om, am, copy_video, plan, n).1.contains(Finding::Missing(i))
                implies i < n && kind_position(am, match_streams(om, am, copy_video, plan, i as nat).0,
                crate::media::stream_kind(om.streams@[i as int])) >= match_streams(om, am, copy_video, plan, i as nat).0.len() by {
                lemma_contains_concat(findings, seq![Finding::Missing(i0)], Finding::Missing(i));
                assert(findings.push(Finding::Missing(i0)) == findings + seq![Finding::Missing(i0)]);
                if !findings.contains(Finding::Missing(i)) {
                    assert(seq![Finding::Missing(i0)].contains(Finding::Missing(i)));
                    assert(seq![Finding::Missing(i0)][0] == Finding::Missing(i));
                }
            }
        } else {
            let j = remaining[q as int];
            let r2 = remaining.remove(q as int);
            assert forall|x: usize| r2.contains(x) implies #[trigger] remaining.contains(x) by {
                let t = choose|t: int| 0 <= t < r2.len() && r2[t] == x;
                if t < q {
                    assert(remaining[t] == x);
                } else {
                    assert(remaining[t + 1] == x);
                }
            }
            assert forall|i: usize| #[trigger] match_streams(om, am, copy_video, plan, n).1.contains(Finding::Missing(i))
                implies i < n && kind_position(am, match_streams(om, am, copy_video, plan, i as nat).0,
                crate::media::stream_kind(om.streams@[i as int])) >= match_streams(om, am, copy_video, plan, i as nat).0.len() by {
                lemma_pair_no_stream(om, am, copy_video, plan, i0, j, Finding::Missing(i));
                lemma_contains_concat(findings, pair_findings(om, am, copy_video, plan, i0, j), Finding::Missing(i));
            }
        }
    }
}

/// Matching leaves nothing unpaired that could have been paired: no input stream is
/// reported lost while an output stream of its kind is reported as only in the
/// output.
pub proof fn law_no_stream_is_lost_while_one_of_its_kind_is_left(om: MediaInfo, am: MediaInfo, copy_video: bool, plan: TranscodePlan)
    requires
        om.streams@.len() <= usize::MAX,
        am.streams@.len() <= usize::MAX,
        om.chapters@.len() <= usize::MAX,
    ensures
        forall|i: usize, j: usize|
            #[trigger] structure_comparison(om, am, copy_video, plan).0.contains(Finding::Missing(i))
                && #[trigger] structure_comparison(om, am, copy_video, plan).0.contains(Finding::Added(j)) ==> i
                < om.streams@.len() && j < am.streams@.len() && crate::media::stream_kind(om.streams@[i as int])
                != crate::media::stream_kind(am.streams@[j as int]),
{
    let n = om.streams@.len();
    let (remaining, findings, pairs) = match_streams(om, am, copy_video, plan, n);
    let cont = container_findings(om, am);
    let chap = chapter_findings(om, am);
    let added = added_streams(remaining);
    assert(structure_comparison(om, am, copy_video, plan).0 == cont + chap + findings + added);
    crate::laws::law_findings_can_be_reported(om, am, copy_video, plan);
    assert forall|i: usize, j: usize|
        #[trigger] structure_comparison(om, am, copy_video, plan).0.contains(Finding::Missing(i))
            && #[trigger] structure_comparison(om, am, copy_video, plan).0.contains(Finding::Added(j)) implies i
            < om.streams@.len() && j < am.streams@.len() && crate::media::stream_kind(om.streams@[i as int])
            != crate::media::stream_kind(am.streams@[j as int]) by {
        let xm = Finding::Missing(i);
        let xa = Finding::Added(j);
        lemma_no_stream_in_head(om, am, xm);
        lemma_no_stream_in_head(om, am, xa);
        lemma_contains_concat(cont + chap + findings, added, xm);
        lemma_contains_concat(cont + chap, findings, xm);
        lemma_contains_concat(cont + chap + findings, added, xa);
        lemma_contains_concat(cont + chap, findings, xa);
        assert(!added.contains(xm)) by {
            if added.contains(xm) {
                let t = choose|t: int| 0 <= t < added.len() && added[t] == xm;
                assert(added[t] == Finding::Added(remaining[t]));
            }
        }
        lemma_findings_no_added(om, am, copy_video, plan, n, j);
        assert(findings.contains(xm));
        assert(added.contains(xa));
        let t = choose|t: int| 0 <= t < added.len() && added[t] == xa;
        assert(added[t] == Finding::Added(remaining[t]));
        assert(remaining[t] == j);
        lemma_matching_history(om, am, copy_video, plan, n, n);
        let ri = match_streams(om, am, copy_video, plan, i as nat).0;
        lemma_matching_history(om, am, copy_video, plan, i as nat, n);
        assert(remaining.contains(j));
        assert(ri.contains(j));
        let u = choose|u: int| 0 <= u < ri.len() && ri[u] == j;
        lemma_kind_absent(am, ri, crate::media::stream_kind(om.streams@[i as int]));
        lemma_matching_sound_bounds(om, am, copy_video, plan, n, t);
    }
}

proof fn lemma_findings_no_added(om: MediaInfo, am: MediaInfo, copy_video: bool, plan: TranscodePlan, n: nat, j: usize)
    requires
        n <= om.streams@.len(),
    ensures
        !match_streams(om, am, copy_video, plan, n).1.contains(Finding::Added(j)),
    decreases n,
{
    if n > 0 {
        let k = (n - 1) as nat;
        lemma_findings_no_added(om, am, copy_video, plan, k, j);
        let (remaining, findings, pairs) = match_streams(om, am, copy_video, plan, k);
        let i0 = k as usize;
        let b = om.streams@[i0 as int];
        let q = kind_position(am, remaining, crate::media::stream_kind(b));
        let x = Finding::Added(j);
        if q >= remaining.len() {
            assert(findings.push(Finding::Missing(i0)) == findings + seq![Finding::Missing(i0)]);
            lemma_contains_concat(findings, seq![Finding::Missing(i0)], x);
            assert(seq![Finding::Missing(i0)][0] != x);
        } else {
            let jj = remaining[q as int];
            lemma_pair_no_stream(om, am, copy_video, plan, i0, jj, x);
            lemma_contains_concat(findings, pair_findings(om, am, copy_video, plan, i0, jj), x);
        }
    }
}

proof fn lemma_matching_sound_bounds(om: MediaInfo, am: MediaInfo, copy_video: bool, plan: TranscodePlan, n: nat, t: int)
    requires
        n == om.streams@.len(),
        om.streams@.len() <= usize::MAX,
        am.streams@.len() <= usize::MAX,
        0 <= t < match_streams(om, am, copy_video, plan, n).0.len(),
    ensures
        match_streams(om, am, copy_video, plan, n).0[t] < am.streams@.len(),
{
    crate::laws::law_streams_pair_by_kind(om, am, copy_video, plan);
}

/// The container's and the chapters' findings are never about a whole stream.
proof fn lemma_no_stream_in_head(om: MediaInfo, am: MediaInfo, x: Finding)
    requires
        about_whole_stream(x),
    ensures
        !(container_findings(om, am) + chapter_findings(om, am)).contains(x),
{
    let t = tag_findings(Scope::Container, om.format.tags.view_pairs(), am.format.tags.view_pairs());
    let d = changed_if(opt_view(om.format.duration) != opt_view(am.format.duration), Scope::Container, Field::Duration);
    let pm = changed_if(program_views(om.programs@) != program_views(am.programs@), Scope::Container, Field::ProgramMetadata);
    assert(container_findings(om, am) == t + d + pm);
    lemma_tags_no_stream(Scope::Container, om.format.tags.view_pairs(), am.format.tags.view_pairs(), x);
    lemma_changed_if_no_stream(opt_view(om.format.duration) != opt_view(am.format.duration), Scope::Container, Field::Duration, x);
    lemma_changed_if_no_stream(program_views(om.programs@) != program_views(am.programs@), Scope::Container, Field::ProgramMetadata, x);
    lemma_contains_concat(t, d, x);
    lemma_contains_concat(t + d, pm, x);
    let b = om.chapters@;
    let a = am.chapters@;
    let n = if b.len() <= a.len() {
        b.len()
    } else {
        a.len()
    };
    let cc = changed_if(b.len() != a.len(), Scope::Chapters, Field::Count);
    assert(chapter_findings(om, am) == cc + chapter_pairs(b, a, n));
    lemma_changed_if_no_stream(b.len() != a.len(), Scope::Chapters, Field::Count, x);
    lemma_chapter_pairs_no_stream(b, a, n, x);
    lemma_contains_concat(cc, chapter_pairs(b, a, n), x);
    lemma_contains_concat(container_findings(om, am), chapter_findings(om, am), x);
}

proof fn lemma_chapter_pairs_no_stream(b: Seq<Chapter>, a: Seq<Chapter>, m: nat, x: Finding)
    requires
        about_whole_stream(x),
    ensures
        !chapter_pairs(b, a, m).contains(x),
    decreases m,
{
    if m == 0 || m > b.len() || m > a.len() {
        assert(chapter_pairs(b, a, m) =~= Seq::<Finding>::empty());
    } else {
        let j = (m - 1) as nat;
        let scope = Scope::Chapter(j as usize);
        let head = chapter_pairs(b, a, j);
        let c1 = changed_if(opt_view(b[j as int].start_time) != opt_view(a[j as int].start_time), scope, Field::StartTime);
        let c2 = changed_if(opt_view(b[j as int].end_time) != opt_view(a[j as int].end_time), scope, Field::EndTime);
        let t = tag_findings(scope, b[j as int].tags.view_pairs(), a[j as int].tags.view_pairs());
        assert(chapter_pairs(b, a, m) == head + c1 + c2 + t);
        lemma_chapter_pairs_no_stream(b, a, j, x);
        lemma_changed_if_no_stream(opt_view(b[j as int].start_time) != opt_view(a[j as int].start_time), scope, Field::StartTime, x);
        lemma_changed_if_no_stream(opt_view(b[j as int].end_time) != opt_view(a[j as int].end_time), scope, Field::EndTime, x);
        lemma_tags_no_stream(scope, b[j as int].tags.view_pairs(), a[j as int].tags.view_pairs(), x);
        lemma_contains_concat(head, c1, x);
        lemma_contains_concat(head + c1, c2, x);
        lemma_contains_concat(head + c1 + c2, t, x);
    }
}

/// A signed count of microseconds written in decimal, with a leading `-` when
/// negative, is read back as that number.
pub proof fn law_signed_times_read_back(n: nat)
    ensures
        n <= 0x7fff_ffff_ffff_ffff ==> i64_value(decimal(n)) == Some(n as i64),
        0 < n <= 0x8000_0000_0000_0000 ==> i64_value(seq!['-'] + decimal(n)) == Some((-(n as int)) as i64),
{
    crate::laws::lemma_decimal_reads_back(n);
    lemma_decimal_shape(n);
    lemma_digit_char(0);
    let d = decimal(n);
    assert(crate::text::unsigned_digits(d) == d);
    assert(crate::text::is_digit(d[0]));
    let m = seq!['-'] + d;
    assert(m.drop_first() =~= d);
}

/// A transcode command starts with the five fixed options, then the attachment
/// dumps, then the plan's own options, unchanged and in order.
pub proof fn law_plan_options_pass_through_unchanged(p: TranscodePlan, dir: Seq<char>)
    ensures
        transcode_args(p, dir).subrange(0, 5) == seq!["-hide_banner"@, "-nostdin"@, "-nostats"@, "-progress"@, "pipe:1"@],
        transcode_args(p, dir).subrange(5, 5 + dump_args(dir, p.attachments@).len() as int) == dump_args(dir, p.attachments@),
        forall|k: int|
            0 <= k < p.args@.len() ==> transcode_args(p, dir)[5 + dump_args(dir, p.attachments@).len() + k]
                == (#[trigger] p.args@[k])@,
{
    let d = dump_args(dir, p.attachments@);
    let pre = crate::commands::transcode_prefix();
    let args = transcode_args(p, dir);
    assert(args == pre + d + string_views(p.args@) + attach_args(dir, p.attachments@) + seq![p.output@]);
    assert(args.subrange(0, 5) =~= pre);
    assert(args.subrange(5, 5 + d.len() as int) =~= d);
    assert forall|k: int| 0 <= k < p.args@.len() implies args[5 + d.len() + k] == (#[trigger] p.args@[k])@ by {
        assert(string_views(p.args@)[k] == p.args@[k]@);
    }
}

proof fn lemma_changed_tags_kinds(s: Scope, b: TagView, a: TagView, n: nat, x: Finding)
    requires
        changed_tags(s, b, a, n).contains(x),
    ensures
        x is TagChanged,
    decreases n,
{
    if n > 0 && n <= b.len() {
        let j = (n - 1) as nat;
        let tail = if value_ignoring_case(a, b[j as int].0) == Some(b[j as int].1) {
            Seq::<Finding>::empty()
        } else {
            seq![Finding::TagChanged(s, j as usize)]
        };
        assert(changed_tags(s, b, a, n) == changed_tags(s, b, a, j) + tail);
        lemma_contains_concat(changed_tags(s, b, a, j), tail, x);
        if changed_tags(s, b, a, j).contains(x) {
            lemma_changed_tags_kinds(s, b, a, j, x);
        } else {
            assert(tail[0] == x);
        }
    } else {
        assert(changed_tags(s, b, a, n) =~= Seq::<Finding>::empty());
    }
}

proof fn lemma_added_tags_kinds(s: Scope, b: TagView, a: TagView, n: nat, x: Finding)
    requires
        added_tags(s, b, a, n).contains(x),
    ensures
        x is TagAdded,
    decreases n,
{
    if n > 0 && n <= a.len() {
        let j = (n - 1) as nat;
        let tail = if has_key_ignoring_case(b, a[j as int].0) {
            Seq::<Finding>::empty()
        } else {
            seq![Finding::TagAdded(s, j as usize)]
        };
        assert(added_tags(s, b, a, n) == added_tags(s, b, a, j) + tail);
        lemma_contains_concat(added_tags(s, b, a, j), tail, x);
        if added_tags(s, b, a, j).contains(x) {
            lemma_added_tags_kinds(s, b, a, j, x);
        } else {
            assert(tail[0] == x);
        }
    } else {
        assert(added_tags(s, b, a, n) =~= Seq::<Finding>::empty());
    }
}

/// What a pair of video streams reports about their sample layouts.
proof fn lemma_layout_contains(s: Scope, om: MediaInfo, am: MediaInfo, b: MediaStream, a: MediaStream, x: Finding)
    ensures
        layout_findings(s, om, am, b, a).contains(x) <==> match (
            crate::warning::layout_view(om, b),
            crate::warning::layout_view(am, a),
        ) {
            (Some(u), Some(v)) => (x == Finding::Changed(s, Field::ComponentDepths) && u.0 != v.0) || (x
                == Finding::Changed(s, Field::Chroma) && u.1 != v.1) || (x == Finding::Changed(s, Field::Alpha) && u.2
                != v.2),
            _ => x == Finding::LayoutUnknown(s),
        },
{
    match (crate::warning::layout_view(om, b), crate::warning::layout_view(am, a)) {
        (Some(u), Some(v)) => {
            lemma_changed_if_contains(u.0 != v.0, s, Field::ComponentDepths, x);
            lemma_changed_if_contains(u.1 != v.1, s, Field::Chroma, x);
            lemma_changed_if_contains(u.2 != v.2, s, Field::Alpha, x);
            lemma_contains_concat(changed_if(u.0 != v.0, s, Field::ComponentDepths), changed_if(u.1 != v.1, s, Field::Chroma), x);
            lemma_contains_concat(
                changed_if(u.0 != v.0, s, Field::ComponentDepths) + changed_if(u.1 != v.1, s, Field::Chroma),
                changed_if(u.2 != v.2, s, Field::Alpha),
                x,
            );
        },
        _ => {
            let l = seq![Finding::LayoutUnknown(s)];
            assert(l.contains(x) <==> l[0] == x);
        },
    }
}

/// A pair of video streams is compared on its sample layout: when both pixel
/// formats' layouts are known, the bit depths, the chroma subsampling and alpha are
/// each reported exactly when they differ; otherwise the layout is reported as
/// unverifiable. Streams of other kinds report nothing about layouts.
pub proof fn law_pair_reports_layout(om: MediaInfo, am: MediaInfo, copy_video: bool, plan: TranscodePlan, i: usize, j: usize)
    requires
        i < om.streams@.len(),
        j < am.streams@.len(),
    ensures
        ({
            let b = om.streams@[i as int];
            let a = am.streams@[j as int];
            let s = Scope::Stream(i, j);
            let fs = pair_findings(om, am, copy_video, plan, i, j);
            let video = opt_view(b.codec_type) == Some("video"@);
            let src = match crate::media::stream_descriptor(om, b) {
                Some(p) => crate::media::samples_of(p),
                None => None,
            };
            let dst = match crate::media::stream_descriptor(am, a) {
                Some(p) => crate::media::samples_of(p),
                None => None,
            };
            &&& fs.contains(Finding::LayoutUnknown(s)) <==> video && (src is None || dst is None)
            &&& fs.contains(Finding::Changed(s, Field::ComponentDepths)) <==> video && (src matches Some(x) && dst matches Some(y) && x.0 != y.0)
            &&& fs.contains(Finding::Changed(s, Field::Chroma)) <==> video && (src matches Some(x) && dst matches Some(y) && x.1 != y.1)
            &&& fs.contains(Finding::Changed(s, Field::Alpha)) <==> video && (src matches Some(x) && dst matches Some(y) && x.2 != y.2)
        }),
{
    let b = om.streams@[i as int];
    let a = am.streams@[j as int];
    let s = Scope::Stream(i, j);
    let expected = match crate::compare::planned_tags(plan.attachments@, b.index) {
        Some(t) => t,
        None => b.tags.view_pairs(),
    };
    let t = tag_findings(s, expected, a.tags.view_pairs());
    let d = changed_if(set_flags(b.disposition@) != set_flags(a.disposition@), s, Field::Disposition);
    let sd = changed_if(
        sorted_by_type(side_views(b.side_data_list@)) != sorted_by_type(side_views(a.side_data_list@)),
        s,
        Field::SideData,
    );
    let c = if is_copied(copy_video, b) {
        copied_findings(s, b, a)
    } else {
        seq![]
    };
    let k = if opt_view(b.codec_type) == Some("audio"@) {
        audio_findings(s, b, a)
    } else if opt_view(b.codec_type) == Some("video"@) {
        video_findings(s, b, a) + layout_findings(s, om, am, b, a)
    } else {
        seq![]
    };
    assert(pair_findings(om, am, copy_video, plan, i, j) == t + d + sd + c + k);
    reveal_strlit("video");
    reveal_strlit("audio");
    assert("video"@ != "audio"@) by {
        assert("video"@[0] != "audio"@[0]);
    }
    let xs = seq![
        Finding::LayoutUnknown(s),
        Finding::Changed(s, Field::ComponentDepths),
        Finding::Changed(s, Field::Chroma),
        Finding::Changed(s, Field::Alpha),
    ];
    assert forall|q: int| 0 <= q < 4 implies (#[trigger] pair_findings(om, am, copy_video, plan, i, j).contains(xs[q])
        <==> opt_view(b.codec_type) == Some("video"@) && layout_findings(s, om, am, b, a).contains(xs[q])) by {
        let x = xs[q];
        assert(!t.contains(x)) by {
            if t.contains(x) {
                lemma_contains_concat(
                    changed_tags(s, expected, a.tags.view_pairs(), expected.len()),
                    added_tags(s, expected, a.tags.view_pairs(), a.tags.view_pairs().len()),
                    x,
                );
                if changed_tags(s, expected, a.tags.view_pairs(), expected.len()).contains(x) {
                    lemma_changed_tags_kinds(s, expected, a.tags.view_pairs(), expected.len(), x);
                } else {
                    lemma_added_tags_kinds(s, expected, a.tags.view_pairs(), a.tags.view_pairs().len(), x);
                }
            }
        }
        lemma_changed_if_contains(set_flags(b.disposition@) != set_flags(a.disposition@), s, Field::Disposition, x);
        lemma_changed_if_contains(
            sorted_by_type(side_views(b.side_data_list@)) != sorted_by_type(side_views(a.side_data_list@)),
            s,
            Field::SideData,
            x,
        );
        lemma_copy_contains(s, b, a, x);
        lemma_video_contains(s, b, a, x);
        lemma_audio_contains(s, b, a, x);
        lemma_contains_concat(video_findings(s, b, a), layout_findings(s, om, am, b, a), x);
        lemma_contains_concat(t, d, x);
        lemma_contains_concat(t + d, sd, x);
        lemma_contains_concat(t + d + sd, c, x);
        lemma_contains_concat(t + d + sd + c, k, x);
    }
    lemma_layout_contains(s, om, am, b, a, xs[0]);
    lemma_layout_contains(s, om, am, b, a, xs[1]);
    lemma_layout_contains(s, om, am, b, a, xs[2]);
    lemma_layout_contains(s, om, am, b, a, xs[3]);
    assert(pair_findings(om, am, copy_video, plan, i, j).contains(xs[0]) <==> opt_view(b.codec_type) == Some("video"@) && layout_findings(s, om, am, b, a).contains(xs[0]));
    assert(pair_findings(om, am, copy_video, plan, i, j).contains(xs[1]) <==> opt_view(b.codec_type) == Some("video"@) && layout_findings(s, om, am, b, a).contains(xs[1]));
    assert(pair_findings(om, am, copy_video, plan, i, j).contains(xs[2]) <==> opt_view(b.codec_type) == Some("video"@) && layout_findings(s, om, am, b, a).contains(xs[2]));
    assert(pair_findings(om, am, copy_video, plan, i, j).contains(xs[3]) <==> opt_view(b.codec_type) == Some("video"@) && layout_findings(s, om, am, b, a).contains(xs[3]));
}

/// Text without white space at either end is its own trimmed form.
proof fn lemma_trim_untouched(t: Seq<char>)
    requires
        t.len() > 0 ==> !crate::text::is_ws(t[0]) && !crate::text::is_ws(t.last()),
    ensures
        crate::text::trim(t) == t,
{
    if t.len() == 0 {
        crate::text::lemma_find_from_bounds(t, crate::text::non_ws(), 0);
    } else {
        crate::text::lemma_find_from_is(t, crate::text::non_ws(), 0, 0);
        assert(crate::text::trim_back(t, crate::text::ws(), t.len()) == t.len());
        assert(t.subrange(0, t.len() as int) =~= t);
    }
}

/// A progress line `KEY=VALUE` with no white space in it and no `=` in the key
/// reads as exactly that key and value.
pub proof fn law_progress_line_reads_key_and_value(k: Seq<char>, v: Seq<char>)
    requires
        forall|i: int| 0 <= i < k.len() ==> #[trigger] k[i] != '=' && !crate::text::is_ws(k[i]),
        forall|i: int| 0 <= i < v.len() ==> !crate::text::is_ws(#[trigger] v[i]),
    ensures
        key_value(k + seq!['='] + v) == Some((k, v)),
{
    let line = k + seq!['='] + v;
    assert(!crate::text::is_ws('='));
    assert(line[k.len() as int] == '=');
    assert(line[0] == if k.len() > 0 { k[0] } else { '=' });
    assert(line.last() == if v.len() > 0 { v.last() } else { '=' });
    lemma_trim_untouched(line);
    assert forall|j: int| 0 <= j < k.len() implies !(#[trigger] crate::text::is_char('=')(line[j])) by {
        assert(line[j] == k[j]);
    }
    crate::text::lemma_find_from_is(line, crate::text::is_char('='), 0, k.len());
    assert(line.take(k.len() as int) =~= k);
    assert(line.skip(k.len() + 1 as int) =~= v);
    lemma_trim_untouched(v);
}

} // verus!
