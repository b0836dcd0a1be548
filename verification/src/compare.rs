//! Comparing the probe of a transcode's output with the probe of its input.
use vstd::prelude::*;
use vstd::string::*;
use crate::media::{
    eq_ignoring_ascii_case, opt_is, opt_view, pair_views, regular_video, same_ignoring_ascii_case,
    samples_of, stream_descriptor, stream_kind, text_below, text_is_below, Chapter, MediaInfo,
    MediaStream, SideData, Tags,
};
use crate::plan::TranscodePlan;
use crate::text::{chars_of, str_eq};

verus! {

/// What a finding is about.
#[derive(Debug, Clone, Copy, PartialEq, Eq, Structural)]
pub enum Scope {
    Container,
    Chapters,
    /// The chapter at this position.
    Chapter(usize),
    /// The input stream and the output stream at these positions.
    Stream(usize, usize),
}

/// Which value changed.
#[derive(Debug, Clone, Copy, PartialEq, Eq, Structural)]
pub enum Field {
    Duration,
    ProgramMetadata,
    Count,
    StartTime,
    EndTime,
    Disposition,
    SideData,
    CodecName,
    ExtradataSize,
    ExtradataHash,
    SampleFmt,
    SampleRate,
    Channels,
    ChannelLayout,
    BitsPerSample,
    BitsPerRawSample,
    Width,
    Height,
    SampleAspectRatio,
    ColorRange,
    ColorSpace,
    ColorTransfer,
    ColorPrimaries,
    ChromaLocation,
    FieldOrder,
    ComponentDepths,
    Chroma,
    Alpha,
}

/// One difference between input and output.
#[derive(Debug, Clone, Copy, PartialEq, Eq, Structural)]
pub enum Finding {
    /// A value differs.
    Changed(Scope, Field),
    /// The expected tag at this position is missing or has another value.
    TagChanged(Scope, usize),
    /// The output tag at this position has no counterpart.
    TagAdded(Scope, usize),
    /// The input stream at this position has no output stream of its kind.
    Missing(usize),
    /// The output stream at this position matches no input stream.
    Added(usize),
    /// An attachment's contents cannot be checked without extradata hashes.
    AttachmentUnverifiable(Scope),
    /// Bit depths, chroma and alpha cannot be checked for these pixel formats.
    LayoutUnknown(Scope),
}

/// Tags as plain pairs.
pub type TagView = Seq<(Seq<char>, Seq<char>)>;

/// The value of the first key of `e` that equals `k` ignoring ASCII case.
pub open spec fn value_ignoring_case(e: TagView, k: Seq<char>) -> Option<Seq<char>>
    decreases e.len(),
{
    if e.len() == 0 {
        None
    } else if same_ignoring_ascii_case(e[0].0, k) {
        Some(e[0].1)
    } else {
        value_ignoring_case(e.drop_first(), k)
    }
}

/// The expected tags among the first `n` of `before` whose value the output lacks or changed.
pub open spec fn changed_tags(scope: Scope, before: TagView, after: TagView, n: nat) -> Seq<Finding>
    decreases n,
{
    if n == 0 || n > before.len() {
        seq![]
    } else {
        let k = (n - 1) as nat;
        changed_tags(scope, before, after, k) + if value_ignoring_case(after, before[k as int].0) == Some(
            before[k as int].1,
        ) {
            seq![]
        } else {
            seq![Finding::TagChanged(scope, k as usize)]
        }
    }
}

/// The first `n` output tags whose key no expected tag has, ignoring ASCII case.
pub open spec fn added_tags(scope: Scope, before: TagView, after: TagView, n: nat) -> Seq<Finding>
    decreases n,
{
    if n == 0 || n > after.len() {
        seq![]
    } else {
        let k = (n - 1) as nat;
        added_tags(scope, before, after, k) + if crate::media::has_key_ignoring_case(before, after[k as int].0) {
            seq![]
        } else {
            seq![Finding::TagAdded(scope, k as usize)]
        }
    }
}

/// The tag differences between expected and actual tags.
pub open spec fn tag_findings(scope: Scope, before: TagView, after: TagView) -> Seq<Finding> {
    changed_tags(scope, before, after, before.len()) + added_tags(scope, before, after, after.len())
}

pub(crate) fn value_of_key<'a>(t: &'a Tags, key: &str) -> (r: Option<&'a String>)
    ensures
        match r {
            Some(v) => value_ignoring_case(t.view_pairs(), key@) == Some(v@),
            None => value_ignoring_case(t.view_pairs(), key@) is None,
        },
{
    let ghost e = t.view_pairs();
    let mut i: usize = 0;
    assert(e.skip(0) =~= e);
    while i < t.entries.len()
        invariant
            e == t.view_pairs(),
            i <= e.len(),
            value_ignoring_case(e, key@) == value_ignoring_case(e.skip(i as int), key@),
        decreases e.len() - i,
    {
        proof {
            assert(e.skip(i as int)[0] == e[i as int]);
            assert(e.skip(i as int).drop_first() =~= e.skip(i + 1));
        }
        if eq_ignoring_ascii_case(t.entries[i].0.as_str(), key) {
            return Some(&t.entries[i].1);
        }
        i += 1;
    }
    None
}

/// The tag differences between `before` (what the output should carry) and `after`.
pub fn compare_tags(scope: Scope, before: &Tags, after: &Tags) -> (r: Vec<Finding>)
    ensures
        r@ == tag_findings(scope, before.view_pairs(), after.view_pairs()),
{
    let ghost b = before.view_pairs();
    let ghost a = after.view_pairs();
    let mut r: Vec<Finding> = Vec::new();
    let mut i: usize = 0;
    while i < before.entries.len()
        invariant
            b == before.view_pairs(),
            a == after.view_pairs(),
            i <= b.len(),
            r@ == changed_tags(scope, b, a, i as nat),
        decreases b.len() - i,
    {
        let found = value_of_key(after, before.entries[i].0.as_str());
        let same = match found {
            Some(v) => str_eq(v.as_str(), before.entries[i].1.as_str()),
            None => false,
        };
        if !same {
            r.push(Finding::TagChanged(scope, i));
        }
        i += 1;
    }
    let mut k: usize = 0;
    let ghost head = r@;
    assert(head + added_tags(scope, b, a, 0) =~= head);
    while k < after.entries.len()
        invariant
            b == before.view_pairs(),
            a == after.view_pairs(),
            k <= a.len(),
            r@ == head + added_tags(scope, b, a, k as nat),
        decreases a.len() - k,
    {
        if !before.has_key_ignoring_case(after.entries[k].0.as_str()) {
            r.push(Finding::TagAdded(scope, k));
        }
        assert(r@ =~= head + added_tags(scope, b, a, k as nat + 1));
        k += 1;
    }
    r
}

/// A side-data record as plain values: its type and its other members.
pub type SideView = (Option<Seq<char>>, TagView);

/// The side data of a stream as plain values.
pub open spec fn side_views(v: Seq<SideData>) -> Seq<SideView> {
    v.map_values(|d: SideData| (opt_view(d.side_data_type), d.extra.view_pairs()))
}

/// Whether side-data type `a` orders at or before `b` (no type first).
pub open spec fn key_le(a: Option<Seq<char>>, b: Option<Seq<char>>) -> bool {
    match (a, b) {
        (None, _) => true,
        (Some(_), None) => false,
        (Some(x), Some(y)) => !text_below(y, x),
    }
}

/// `x` placed after the last record of the sorted `s` whose type orders at or before its own.
pub open spec fn insert_by_key(s: Seq<SideView>, x: SideView) -> Seq<SideView>
    decreases s.len(),
{
    if s.len() == 0 {
        seq![x]
    } else if key_le(s.last().0, x.0) {
        s.push(x)
    } else {
        insert_by_key(s.drop_last(), x).push(s.last())
    }
}

/// `v` stably sorted by side-data type, as `sort_by_key` orders it.
pub open spec fn sorted_by_type(v: Seq<SideView>) -> Seq<SideView>
    decreases v.len(),
{
    if v.len() == 0 {
        seq![]
    } else {
        insert_by_key(sorted_by_type(v.drop_last()), v.last())
    }
}

fn type_le(a: &Option<String>, b: &Option<String>) -> (r: bool)
    ensures
        r == key_le(opt_view(*a), opt_view(*b)),
{
    match (a, b) {
        (None, _) => true,
        (Some(_), None) => false,
        (Some(x), Some(y)) => {
            let xc = chars_of(x.as_str());
            let yc = chars_of(y.as_str());
            !text_is_below(yc.as_slice(), xc.as_slice())
        },
    }
}

/// The positions of `v` in stably sorted order.
pub(crate) fn sort_positions(v: &Vec<SideData>) -> (r: Vec<usize>)
    ensures
        r@.len() == v@.len(),
        forall|k: int| 0 <= k < r@.len() ==> #[trigger] r@[k] < v@.len(),
        r@.map_values(|p: usize| side_views(v@)[p as int]) == sorted_by_type(side_views(v@)),
{
    let ghost all = side_views(v@);
    let mut r: Vec<usize> = Vec::new();
    let mut i: usize = 0;
    assert(all.take(0) =~= seq![]);
    assert(r@.map_values(|p: usize| all[p as int]) =~= seq![]);
    while i < v.len()
        invariant
            all == side_views(v@),
            i <= v@.len(),
            r@.len() == i,
            forall|k: int| 0 <= k < r@.len() ==> #[trigger] r@[k] < i,
            r@.map_values(|p: usize| all[p as int]) == sorted_by_type(all.take(i as int)),
        decreases v@.len() - i,
    {
        let ghost s = r@.map_values(|p: usize| all[p as int]);
        let ghost x = all[i as int];
        let mut j: usize = r.len();
        assert(s.take(j as int) =~= s);
        assert(s.skip(j as int) =~= seq![]);
        assert(insert_by_key(s, x) + seq![] =~= insert_by_key(s, x));
        while j > 0 && !type_le(&v[r[j - 1]].side_data_type, &v[i].side_data_type)
            invariant
                j <= r@.len(),
                s == r@.map_values(|p: usize| all[p as int]),
                x == all[i as int],
                forall|k: int| 0 <= k < r@.len() ==> #[trigger] r@[k] < i,
                i < v@.len(),
                all == side_views(v@),
                insert_by_key(s, x) == insert_by_key(s.take(j as int), x) + s.skip(j as int),
            decreases j,
        {
            proof {
                assert(s.take(j as int).last() == s[j - 1]);
                assert(s[j - 1] == all[r@[j - 1] as int]);
                assert(s.take(j as int).drop_last() =~= s.take(j - 1));
                assert(s.skip(j - 1) =~= seq![s[j - 1]] + s.skip(j as int));
                assert(insert_by_key(s.take(j - 1), x).push(s[j - 1]) + s.skip(j as int) =~= insert_by_key(
                    s.take(j - 1),
                    x,
                ) + s.skip(j - 1));
            }
            j -= 1;
        }
        proof {
            if j > 0 {
                assert(s.take(j as int).last() == s[j - 1]);
                assert(s[j - 1] == all[r@[j - 1] as int]);
                assert(insert_by_key(s.take(j as int), x) == s.take(j as int).push(x));
            } else {
                assert(s.take(0) =~= seq![]);
            }
        }
        let ghost before = r@;
        r.insert(j, i);
        proof {
            assert(all.take(i + 1).drop_last() =~= all.take(i as int));
            assert(all.take(i + 1).last() == x);
            assert(r@.map_values(|p: usize| all[p as int]) =~= s.take(j as int).push(x) + s.skip(j as int));
            assert forall|k: int| 0 <= k < r@.len() implies #[trigger] r@[k] < i + 1 by {
                if k < j {
                    assert(r@[k] == before[k]);
                } else if k > j {
                    assert(r@[k] == before[k - 1]);
                }
            }
        }
        i += 1;
    }
    assert(all.take(v@.len() as int) =~= all);
    r
}

fn same_tags(a: &Tags, b: &Tags) -> (r: bool)
    ensures
        r == (a.view_pairs() == b.view_pairs()),
{
    if a.entries.len() != b.entries.len() {
        assert(a.view_pairs().len() != b.view_pairs().len());
        return false;
    }
    let mut i: usize = 0;
    while i < a.entries.len()
        invariant
            a.entries@.len() == b.entries@.len(),
            i <= a.entries@.len(),
            forall|j: int| 0 <= j < i ==> a.view_pairs()[j] == b.view_pairs()[j],
        decreases a.entries@.len() - i,
    {
        if !str_eq(a.entries[i].0.as_str(), b.entries[i].0.as_str()) || !str_eq(
            a.entries[i].1.as_str(),
            b.entries[i].1.as_str(),
        ) {
            assert(a.view_pairs()[i as int] != b.view_pairs()[i as int]);
            return false;
        }
        i += 1;
    }
    assert(a.view_pairs() =~= b.view_pairs());
    true
}

fn same_text(a: &Option<String>, b: &Option<String>) -> (r: bool)
    ensures
        r == (opt_view(*a) == opt_view(*b)),
{
    match (a, b) {
        (None, None) => true,
        (Some(x), Some(y)) => str_eq(x.as_str(), y.as_str()),
        _ => false,
    }
}

/// Whether two streams' side data are equal once each is sorted by type.
pub fn same_side_data(a: &Vec<SideData>, b: &Vec<SideData>) -> (r: bool)
    ensures
        r == (sorted_by_type(side_views(a@)) == sorted_by_type(side_views(b@))),
{
    let pa = sort_positions(a);
    let pb = sort_positions(b);
    let ghost sa = sorted_by_type(side_views(a@));
    let ghost sb = sorted_by_type(side_views(b@));
    assert(sa.len() == pa@.len());
    assert(sb.len() == pb@.len());
    if pa.len() != pb.len() {
        return false;
    }
    let mut i: usize = 0;
    while i < pa.len()
        invariant
            pa@.len() == pb@.len(),
            pa@.len() == a@.len(),
            pb@.len() == b@.len(),
            forall|k: int| 0 <= k < pa@.len() ==> #[trigger] pa@[k] < a@.len(),
            forall|k: int| 0 <= k < pb@.len() ==> #[trigger] pb@[k] < b@.len(),
            sa == pa@.map_values(|p: usize| side_views(a@)[p as int]),
            sb == pb@.map_values(|p: usize| side_views(b@)[p as int]),
            sa == sorted_by_type(side_views(a@)),
            sb == sorted_by_type(side_views(b@)),
            i <= pa@.len(),
            forall|j: int| 0 <= j < i ==> sa[j] == sb[j],
        decreases pa@.len() - i,
    {
        let x = &a[pa[i]];
        let y = &b[pb[i]];
        proof {
            assert(sa[i as int] == side_views(a@)[pa@[i as int] as int]);
            assert(sb[i as int] == side_views(b@)[pb@[i as int] as int]);
        }
        if !same_text(&x.side_data_type, &y.side_data_type) || !same_tags(&x.extra, &y.extra) {
            assert(sa[i as int] != sb[i as int]);
            assert(sa != sb);
            return false;
        }
        i += 1;
    }
    assert(sa =~= sb);
    true
}

/// `[Changed(scope, field)]` when `differs`, else nothing.
pub open spec fn changed_if(differs: bool, scope: Scope, field: Field) -> Seq<Finding> {
    if differs {
        seq![Finding::Changed(scope, field)]
    } else {
        seq![]
    }
}

fn note(r: &mut Vec<Finding>, differs: bool, scope: Scope, field: Field)
    ensures
        final(r)@ == old(r)@ + changed_if(differs, scope, field),
{
    if differs {
        r.push(Finding::Changed(scope, field));
    } else {
        assert(old(r)@ + changed_if(differs, scope, field) =~= old(r)@);
    }
}

fn append_findings(r: &mut Vec<Finding>, more: Vec<Finding>)
    ensures
        final(r)@ == old(r)@ + more@,
{
    let mut m = more;
    r.append(&mut m);
}

/// The disposition flags that are set, in order.
pub open spec fn set_flags(d: Seq<(String, i32)>) -> Seq<(Seq<char>, i32)>
    decreases d.len(),
{
    if d.len() == 0 {
        seq![]
    } else {
        set_flags(d.drop_last()) + if d.last().1 != 0 {
            seq![(d.last().0@, d.last().1)]
        } else {
            seq![]
        }
    }
}

fn same_flags(a: &Vec<(String, i32)>, b: &Vec<(String, i32)>) -> (r: bool)
    ensures
        r == (set_flags(a@) == set_flags(b@)),
{
    let fa = flag_list(a);
    let fb = flag_list(b);
    if fa.len() != fb.len() {
        assert(set_flags(a@).len() != set_flags(b@).len());
        return false;
    }
    let mut i: usize = 0;
    while i < fa.len()
        invariant
            fa@.len() == fb@.len(),
            fa@.len() == set_flags(a@).len(),
            fb@.len() == set_flags(b@).len(),
            forall|k: int| 0 <= k < fa@.len() ==> (#[trigger] fa@[k]).0@ == set_flags(a@)[k].0 && fa@[k].1 == set_flags(a@)[k].1,
            forall|k: int| 0 <= k < fb@.len() ==> (#[trigger] fb@[k]).0@ == set_flags(b@)[k].0 && fb@[k].1 == set_flags(b@)[k].1,
            i <= fa@.len(),
            forall|k: int| 0 <= k < i ==> set_flags(a@)[k] == set_flags(b@)[k],
        decreases fa@.len() - i,
    {
        if !str_eq(fa[i].0.as_str(), fb[i].0.as_str()) || fa[i].1 != fb[i].1 {
            assert(set_flags(a@)[i as int] != set_flags(b@)[i as int]);
            return false;
        }
        i += 1;
    }
    assert(set_flags(a@) =~= set_flags(b@));
    true
}

pub(crate) fn flag_list(d: &Vec<(String, i32)>) -> (r: Vec<(String, i32)>)
    ensures
        r@.len() == set_flags(d@).len(),
        forall|k: int| 0 <= k < r@.len() ==> (#[trigger] r@[k]).0@ == set_flags(d@)[k].0 && r@[k].1 == set_flags(d@)[k].1,
{
    let mut r: Vec<(String, i32)> = Vec::new();
    let mut i: usize = 0;
    assert(d@.take(0) =~= seq![]);
    while i < d.len()
        invariant
            i <= d@.len(),
            r@.len() == set_flags(d@.take(i as int)).len(),
            forall|k: int| 0 <= k < r@.len() ==> (#[trigger] r@[k]).0@ == set_flags(d@.take(i as int))[k].0 && r@[k].1
                == set_flags(d@.take(i as int))[k].1,
        decreases d@.len() - i,
    {
        proof {
            assert(d@.take(i + 1).drop_last() =~= d@.take(i as int));
            assert(d@.take(i + 1).last() == d@[i as int]);
        }
        if d[i].1 != 0 {
            r.push((d[i].0.clone(), d[i].1));
        }
        i += 1;
    }
    assert(d@.take(d@.len() as int) =~= d@);
    r
}

/// The tags a plan gives input stream `i` when it re-attaches it.
pub open spec fn planned_tags(atts: Seq<crate::plan::PlannedAttachment>, i: usize) -> Option<TagView>
    decreases atts.len(),
{
    if atts.len() == 0 {
        None
    } else if atts[0].input_index == i {
        Some(atts[0].metadata.view_pairs())
    } else {
        planned_tags(atts.drop_first(), i)
    }
}

pub(crate) fn planned_tags_of(plan: &TranscodePlan, i: usize) -> (r: Option<&Tags>)
    ensures
        match r {
            Some(t) => planned_tags(plan.attachments@, i) == Some(t.view_pairs()),
            None => planned_tags(plan.attachments@, i) is None,
        },
{
    let ghost a = plan.attachments@;
    let mut k: usize = 0;
    assert(a.skip(0) =~= a);
    while k < plan.attachments.len()
        invariant
            a == plan.attachments@,
            k <= a.len(),
            planned_tags(a, i) == planned_tags(a.skip(k as int), i),
        decreases a.len() - k,
    {
        proof {
            assert(a.skip(k as int)[0] == a[k as int]);
            assert(a.skip(k as int).drop_first() =~= a.skip(k + 1));
        }
        if plan.attachments[k].input_index == i {
            return Some(&plan.attachments[k].metadata);
        }
        k += 1;
    }
    None
}

/// Whether a stream is compared by its packets: copied streams other than attachments.
pub open spec fn is_copied(copy_video: bool, b: MediaStream) -> bool {
    copy_video || !regular_video(b)
}

/// Findings for the stream-copy fields: codec and extradata, and for attachments
/// whether their contents can be checked.
pub open spec fn copied_findings(scope: Scope, b: MediaStream, a: MediaStream) -> Seq<Finding> {
    changed_if(opt_view(b.codec_name) != opt_view(a.codec_name), scope, Field::CodecName) + changed_if(
        b.extradata_size != a.extradata_size,
        scope,
        Field::ExtradataSize,
    ) + changed_if(opt_view(b.extradata_hash) != opt_view(a.extradata_hash), scope, Field::ExtradataHash)
        + if stream_kind(b) == "attachment"@ && (b.extradata_hash is None || a.extradata_hash is None) {
        seq![Finding::AttachmentUnverifiable(scope)]
    } else {
        seq![]
    }
}

/// Findings for the audio fields.
pub open spec fn audio_findings(scope: Scope, b: MediaStream, a: MediaStream) -> Seq<Finding> {
    changed_if(opt_view(b.sample_fmt) != opt_view(a.sample_fmt), scope, Field::SampleFmt) + changed_if(
        opt_view(b.sample_rate) != opt_view(a.sample_rate),
        scope,
        Field::SampleRate,
    ) + changed_if(b.channels != a.channels, scope, Field::Channels) + changed_if(
        opt_view(b.channel_layout) != opt_view(a.channel_layout),
        scope,
        Field::ChannelLayout,
    ) + changed_if(b.bits_per_sample != a.bits_per_sample, scope, Field::BitsPerSample) + changed_if(
        opt_view(b.bits_per_raw_sample) != opt_view(a.bits_per_raw_sample),
        scope,
        Field::BitsPerRawSample,
    )
}

/// Findings for the video fields other than the sample layout.
pub open spec fn video_findings(scope: Scope, b: MediaStream, a: MediaStream) -> Seq<Finding> {
    changed_if(b.width != a.width, scope, Field::Width) + changed_if(b.height != a.height, scope, Field::Height)
        + changed_if(opt_view(b.sample_aspect_ratio) != opt_view(a.sample_aspect_ratio), scope, Field::SampleAspectRatio)
        + changed_if(opt_view(b.color_range) != opt_view(a.color_range), scope, Field::ColorRange)
        + changed_if(opt_view(b.color_space) != opt_view(a.color_space), scope, Field::ColorSpace)
        + changed_if(opt_view(b.color_transfer) != opt_view(a.color_transfer), scope, Field::ColorTransfer)
        + changed_if(opt_view(b.color_primaries) != opt_view(a.color_primaries), scope, Field::ColorPrimaries)
        + changed_if(opt_view(b.chroma_location) != opt_view(a.chroma_location), scope, Field::ChromaLocation)
        + changed_if(opt_view(b.field_order) != opt_view(a.field_order), scope, Field::FieldOrder)
}

/// Findings for the sample layouts of two video streams.
pub open spec fn layout_findings(scope: Scope, om: MediaInfo, am: MediaInfo, b: MediaStream, a: MediaStream) -> Seq<
    Finding,
> {
    let src = match stream_descriptor(om, b) {
        Some(p) => samples_of(p),
        None => None,
    };
    let dst = match stream_descriptor(am, a) {
        Some(p) => samples_of(p),
        None => None,
    };
    match (src, dst) {
        (Some(x), Some(y)) => changed_if(x.0 != y.0, scope, Field::ComponentDepths) + changed_if(
            x.1 != y.1,
            scope,
            Field::Chroma,
        ) + changed_if(x.2 != y.2, scope, Field::Alpha),
        _ => seq![Finding::LayoutUnknown(scope)],
    }
}

/// Everything that differs between a matched pair of streams.
pub open spec fn pair_findings(
    om: MediaInfo,
    am: MediaInfo,
    copy_video: bool,
    plan: TranscodePlan,
    i: usize,
    j: usize,
) -> Seq<Finding> {
    let b = om.streams@[i as int];
    let a = am.streams@[j as int];
    let scope = Scope::Stream(i, j);
    let expected = match planned_tags(plan.attachments@, b.index) {
        Some(t) => t,
        None => b.tags.view_pairs(),
    };
    tag_findings(scope, expected, a.tags.view_pairs()) + changed_if(
        set_flags(b.disposition@) != set_flags(a.disposition@),
        scope,
        Field::Disposition,
    ) + changed_if(
        sorted_by_type(side_views(b.side_data_list@)) != sorted_by_type(side_views(a.side_data_list@)),
        scope,
        Field::SideData,
    ) + (if is_copied(copy_video, b) {
        copied_findings(scope, b, a)
    } else {
        seq![]
    }) + if opt_view(b.codec_type) == Some("audio"@) {
        audio_findings(scope, b, a)
    } else if opt_view(b.codec_type) == Some("video"@) {
        video_findings(scope, b, a) + layout_findings(scope, om, am, b, a)
    } else {
        seq![]
    }
}

pub(crate) fn layout_of(m: &MediaInfo, s: &MediaStream) -> (r: Option<crate::media::VideoSamples>)
    ensures
        match r {
            Some(v) => match stream_descriptor(*m, *s) {
                Some(p) => samples_of(p) == Some(v.layout()),
                None => false,
            },
            None => match stream_descriptor(*m, *s) {
                Some(p) => samples_of(p) is None,
                None => true,
            },
        },
{
    match m.pixel_format(s) {
        Some(p) => p.samples(),
        None => None,
    }
}

fn same_depths(a: &Vec<u8>, b: &Vec<u8>) -> (r: bool)
    ensures
        r == (a@ == b@),
{
    if a.len() != b.len() {
        return false;
    }
    let mut i: usize = 0;
    while i < a.len()
        invariant
            a@.len() == b@.len(),
            i <= a@.len(),
            forall|k: int| 0 <= k < i ==> a@[k] == b@[k],
        decreases a@.len() - i,
    {
        if a[i] != b[i] {
            return false;
        }
        i += 1;
    }
    assert(a@ =~= b@);
    true
}

fn compare_copied(scope: Scope, b: &MediaStream, a: &MediaStream) -> (r: Vec<Finding>)
    ensures
        r@ == copied_findings(scope, *b, *a),
{
    let mut r: Vec<Finding> = Vec::new();
    note(&mut r, !same_text(&b.codec_name, &a.codec_name), scope, Field::CodecName);
    note(&mut r, b.extradata_size != a.extradata_size, scope, Field::ExtradataSize);
    note(&mut r, !same_text(&b.extradata_hash, &a.extradata_hash), scope, Field::ExtradataHash);
    let kind = b.kind();
    let ghost head = r@;
    if str_eq(kind.as_str(), "attachment") && (b.extradata_hash.is_none() || a.extradata_hash.is_none()) {
        r.push(Finding::AttachmentUnverifiable(scope));
    }
    assert(r@ =~= copied_findings(scope, *b, *a));
    r
}

fn compare_audio(scope: Scope, b: &MediaStream, a: &MediaStream) -> (r: Vec<Finding>)
    ensures
        r@ == audio_findings(scope, *b, *a),
{
    let mut r: Vec<Finding> = Vec::new();
    note(&mut r, !same_text(&b.sample_fmt, &a.sample_fmt), scope, Field::SampleFmt);
    note(&mut r, !same_text(&b.sample_rate, &a.sample_rate), scope, Field::SampleRate);
    note(&mut r, b.channels != a.channels, scope, Field::Channels);
    note(&mut r, !same_text(&b.channel_layout, &a.channel_layout), scope, Field::ChannelLayout);
    note(&mut r, b.bits_per_sample != a.bits_per_sample, scope, Field::BitsPerSample);
    note(&mut r, !same_text(&b.bits_per_raw_sample, &a.bits_per_raw_sample), scope, Field::BitsPerRawSample);
    assert(r@ =~= audio_findings(scope, *b, *a));
    r
}

fn compare_video(scope: Scope, b: &MediaStream, a: &MediaStream) -> (r: Vec<Finding>)
    ensures
        r@ == video_findings(scope, *b, *a),
{
    let mut r: Vec<Finding> = Vec::new();
    note(&mut r, b.width != a.width, scope, Field::Width);
    note(&mut r, b.height != a.height, scope, Field::Height);
    note(&mut r, !same_text(&b.sample_aspect_ratio, &a.sample_aspect_ratio), scope, Field::SampleAspectRatio);
    note(&mut r, !same_text(&b.color_range, &a.color_range), scope, Field::ColorRange);
    note(&mut r, !same_text(&b.color_space, &a.color_space), scope, Field::ColorSpace);
    note(&mut r, !same_text(&b.color_transfer, &a.color_transfer), scope, Field::ColorTransfer);
    note(&mut r, !same_text(&b.color_primaries, &a.color_primaries), scope, Field::ColorPrimaries);
    note(&mut r, !same_text(&b.chroma_location, &a.chroma_location), scope, Field::ChromaLocation);
    note(&mut r, !same_text(&b.field_order, &a.field_order), scope, Field::FieldOrder);
    assert(r@ =~= video_findings(scope, *b, *a));
    r
}

fn compare_layout(scope: Scope, om: &MediaInfo, am: &MediaInfo, b: &MediaStream, a: &MediaStream) -> (r: Vec<Finding>)
    ensures
        r@ == layout_findings(scope, *om, *am, *b, *a),
{
    let mut r: Vec<Finding> = Vec::new();
    match (layout_of(om, b), layout_of(am, a)) {
        (Some(x), Some(y)) => {
            note(&mut r, !same_depths(&x.component_depths, &y.component_depths), scope, Field::ComponentDepths);
            note(&mut r, x.chroma != y.chroma, scope, Field::Chroma);
            note(&mut r, x.alpha != y.alpha, scope, Field::Alpha);
            assert(r@ =~= layout_findings(scope, *om, *am, *b, *a));
        },
        _ => {
            r.push(Finding::LayoutUnknown(scope));
            assert(r@ =~= layout_findings(scope, *om, *am, *b, *a));
        },
    }
    r
}

/// Everything that differs between input stream `i` and output stream `j`.
pub fn compare_pair(
    original: &MediaInfo,
    actual: &MediaInfo,
    copy_video: bool,
    plan: &TranscodePlan,
    i: usize,
    j: usize,
) -> (r: Vec<Finding>)
    requires
        i < original.streams@.len(),
        j < actual.streams@.len(),
    ensures
        r@ == pair_findings(*original, *actual, copy_video, *plan, i, j),
{
    let b = &original.streams[i];
    let a = &actual.streams[j];
    let scope = Scope::Stream(i, j);
    let expected = match planned_tags_of(plan, b.index) {
        Some(t) => t,
        None => &b.tags,
    };
    let mut r = compare_tags(scope, expected, &a.tags);
    note(&mut r, !same_flags(&b.disposition, &a.disposition), scope, Field::Disposition);
    note(&mut r, !same_side_data(&b.side_data_list, &a.side_data_list), scope, Field::SideData);
    let copied = if copy_video || !b.is_regular_video() {
        compare_copied(scope, b, a)
    } else {
        Vec::new()
    };
    append_findings(&mut r, copied);
    let typed = if opt_is(&b.codec_type, "audio") {
        compare_audio(scope, b, a)
    } else if opt_is(&b.codec_type, "video") {
        let mut v = compare_video(scope, b, a);
        let l = compare_layout(scope, original, actual, b, a);
        append_findings(&mut v, l);
        v
    } else {
        Vec::new()
    };
    append_findings(&mut r, typed);
    r
}

/// The program tags as plain values.
pub open spec fn program_views(v: Seq<Option<String>>) -> Seq<Option<Seq<char>>> {
    v.map_values(|t: Option<String>| opt_view(t))
}

/// Findings about the container: its tags, duration and program tags.
pub open spec fn container_findings(om: MediaInfo, am: MediaInfo) -> Seq<Finding> {
    tag_findings(Scope::Container, om.format.tags.view_pairs(), am.format.tags.view_pairs()) + changed_if(
        opt_view(om.format.duration) != opt_view(am.format.duration),
        Scope::Container,
        Field::Duration,
    ) + changed_if(
        program_views(om.programs@) != program_views(am.programs@),
        Scope::Container,
        Field::ProgramMetadata,
    )
}

/// Findings about the first `n` chapter pairs.
pub open spec fn chapter_pairs(b: Seq<Chapter>, a: Seq<Chapter>, n: nat) -> Seq<Finding>
    decreases n,
{
    if n == 0 || n > b.len() || n > a.len() {
        seq![]
    } else {
        let k = (n - 1) as nat;
        let scope = Scope::Chapter(k as usize);
        chapter_pairs(b, a, k) + changed_if(
            opt_view(b[k as int].start_time) != opt_view(a[k as int].start_time),
            scope,
            Field::StartTime,
        ) + changed_if(opt_view(b[k as int].end_time) != opt_view(a[k as int].end_time), scope, Field::EndTime)
            + tag_findings(scope, b[k as int].tags.view_pairs(), a[k as int].tags.view_pairs())
    }
}

/// Findings about the chapters: their count, then each pair both have.
pub open spec fn chapter_findings(om: MediaInfo, am: MediaInfo) -> Seq<Finding> {
    let b = om.chapters@;
    let a = am.chapters@;
    changed_if(b.len() != a.len(), Scope::Chapters, Field::Count) + chapter_pairs(
        b,
        a,
        if b.len() <= a.len() {
            b.len()
        } else {
            a.len()
        },
    )
}

/// The first position in `remaining` of an output stream of kind `kind`.
pub open spec fn kind_position(am: MediaInfo, remaining: Seq<usize>, kind: Seq<char>) -> nat
    decreases remaining.len(),
{
    if remaining.len() == 0 {
        0
    } else if stream_kind(am.streams@[remaining[0] as int]) == kind {
        0
    } else {
        1 + kind_position(am, remaining.drop_first(), kind)
    }
}

/// The matching state: output streams not yet matched, findings, and the stream
/// pairs whose packets are compared.
pub type MatchState = (Seq<usize>, Seq<Finding>, Seq<(usize, usize)>);

/// Matching input stream `i`: with the first unmatched output stream of its kind.
pub open spec fn match_step(
    om: MediaInfo,
    am: MediaInfo,
    copy_video: bool,
    plan: TranscodePlan,
    st: MatchState,
    i: usize,
) -> MatchState {
    let (remaining, findings, packets) = st;
    let b = om.streams@[i as int];
    let q = kind_position(am, remaining, stream_kind(b));
    if q >= remaining.len() {
        (remaining, findings.push(Finding::Missing(i)), packets)
    } else {
        let j = remaining[q as int];
        (
            remaining.remove(q as int),
            findings + pair_findings(om, am, copy_video, plan, i, j),
            if is_copied(copy_video, b) && stream_kind(b) != "attachment"@ {
                packets.push((i, j))
            } else {
                packets
            },
        )
    }
}

/// The matching state after the first `n` input streams.
pub open spec fn match_streams(om: MediaInfo, am: MediaInfo, copy_video: bool, plan: TranscodePlan, n: nat) -> MatchState
    decreases n,
{
    if n == 0 {
        (Seq::new(am.streams@.len(), |k: int| k as usize), seq![], seq![])
    } else {
        match_step(om, am, copy_video, plan, match_streams(om, am, copy_video, plan, (n - 1) as nat), (n - 1) as usize)
    }
}

/// `Added` findings for the unmatched output streams.
pub open spec fn added_streams(remaining: Seq<usize>) -> Seq<Finding> {
    remaining.map_values(|j: usize| Finding::Added(j))
}

/// Everything that differs between input and output, in the order it is reported,
/// and the stream pairs whose packets must be compared.
pub open spec fn structure_comparison(om: MediaInfo, am: MediaInfo, copy_video: bool, plan: TranscodePlan) -> (
    Seq<Finding>,
    Seq<(usize, usize)>,
) {
    let (remaining, findings, packets) = match_streams(om, am, copy_video, plan, om.streams@.len());
    (container_findings(om, am) + chapter_findings(om, am) + findings + added_streams(remaining), packets)
}

fn same_programs(a: &Vec<Option<String>>, b: &Vec<Option<String>>) -> (r: bool)
    ensures
        r == (program_views(a@) == program_views(b@)),
{
    if a.len() != b.len() {
        assert(program_views(a@).len() != program_views(b@).len());
        return false;
    }
    let mut i: usize = 0;
    while i < a.len()
        invariant
            a@.len() == b@.len(),
            i <= a@.len(),
            forall|k: int| 0 <= k < i ==> program_views(a@)[k] == program_views(b@)[k],
        decreases a@.len() - i,
    {
        if !same_text(&a[i], &b[i]) {
            assert(program_views(a@)[i as int] != program_views(b@)[i as int]);
            return false;
        }
        i += 1;
    }
    assert(program_views(a@) =~= program_views(b@));
    true
}

fn compare_chapters(om: &MediaInfo, am: &MediaInfo) -> (r: Vec<Finding>)
    ensures
        r@ == chapter_findings(*om, *am),
{
    let mut r: Vec<Finding> = Vec::new();
    note(&mut r, om.chapters.len() != am.chapters.len(), Scope::Chapters, Field::Count);
    let n = if om.chapters.len() <= am.chapters.len() {
        om.chapters.len()
    } else {
        am.chapters.len()
    };
    let ghost head = r@;
    let mut k: usize = 0;
    while k < n
        invariant
            n <= om.chapters@.len(),
            n <= am.chapters@.len(),
            k <= n,
            r@ == head + chapter_pairs(om.chapters@, am.chapters@, k as nat),
        decreases n - k,
    {
        let b = &om.chapters[k];
        let a = &am.chapters[k];
        let scope = Scope::Chapter(k);
        note(&mut r, !same_text(&b.start_time, &a.start_time), scope, Field::StartTime);
        note(&mut r, !same_text(&b.end_time, &a.end_time), scope, Field::EndTime);
        let t = compare_tags(scope, &b.tags, &a.tags);
        append_findings(&mut r, t);
        assert(r@ =~= head + chapter_pairs(om.chapters@, am.chapters@, k as nat + 1));
        k += 1;
    }
    r
}

/// Compares the probe of a transcode's output with the probe of its input: the
/// container, the chapters, and each input stream against the first unmatched output
/// stream of the same kind (attached pictures count as covers). The expected tags of
/// a re-attached stream are the plan's. Returns the findings and the pairs (input,
/// output positions) of copied streams, other than attachments, whose packets
/// must match.
pub fn compare_structure(original: &MediaInfo, actual: &MediaInfo, copy_video: bool, plan: &TranscodePlan) -> (r: (
    Vec<Finding>,
    Vec<(usize, usize)>,
))
    ensures
        (r.0@, r.1@) == structure_comparison(*original, *actual, copy_video, *plan),
{
    let mut findings = compare_tags(Scope::Container, &original.format.tags, &actual.format.tags);
    note(&mut findings, !same_text(&original.format.duration, &actual.format.duration), Scope::Container, Field::Duration);
    note(&mut findings, !same_programs(&original.programs, &actual.programs), Scope::Container, Field::ProgramMetadata);
    let chapters = compare_chapters(original, actual);
    append_findings(&mut findings, chapters);
    let ghost head = findings@;
    assert(head == container_findings(*original, *actual) + chapter_findings(*original, *actual));
    let mut remaining: Vec<usize> = Vec::new();
    let mut k: usize = 0;
    while k < actual.streams.len()
        invariant
            k <= actual.streams@.len(),
            remaining@ =~= Seq::new(k as nat, |x: int| x as usize),
        decreases actual.streams@.len() - k,
    {
        remaining.push(k);
        k += 1;
    }
    let mut packets: Vec<(usize, usize)> = Vec::new();
    let mut i: usize = 0;
    assert(match_streams(*original, *actual, copy_video, *plan, 0).1 =~= seq![]);
    while i < original.streams.len()
        invariant
            i <= original.streams@.len(),
            forall|x: int| 0 <= x < remaining@.len() ==> #[trigger] remaining@[x] < actual.streams@.len(),
            match_streams(*original, *actual, copy_video, *plan, i as nat) == (remaining@, findings@.skip(head.len() as int), packets@),
            findings@.take(head.len() as int) == head,
            head.len() <= findings@.len(),
        decreases original.streams@.len() - i,
    {
        let b = &original.streams[i];
        let kind = b.kind();
        let ghost st = (remaining@, findings@.skip(head.len() as int), packets@);
        let mut q: usize = 0;
        assert(remaining@.skip(0) =~= remaining@);
        while q < remaining.len() && !str_eq(actual.streams[remaining[q]].kind().as_str(), kind.as_str())
            invariant
                q <= remaining@.len(),
                forall|x: int| 0 <= x < remaining@.len() ==> #[trigger] remaining@[x] < actual.streams@.len(),
                kind_position(*actual, remaining@, kind@) == q + kind_position(*actual, remaining@.skip(q as int), kind@),
            decreases remaining@.len() - q,
        {
            proof {
                assert(remaining@.skip(q as int)[0] == remaining@[q as int]);
                assert(remaining@.skip(q as int).drop_first() =~= remaining@.skip(q + 1));
            }
            q += 1;
        }
        proof {
            if q < remaining@.len() {
                assert(remaining@.skip(q as int)[0] == remaining@[q as int]);
            } else {
                assert(remaining@.skip(q as int) =~= seq![]);
            }
            assert(kind_position(*actual, remaining@, kind@) == q);
        }
        if q == remaining.len() {
            findings.push(Finding::Missing(i));
            assert(findings@.skip(head.len() as int) =~= st.1.push(Finding::Missing(i)));
        } else {
            let j = remaining.remove(q);
            let found = compare_pair(original, actual, copy_video, plan, i, j);
            let ghost before = findings@;
            append_findings(&mut findings, found);
            assert(findings@.skip(head.len() as int) =~= st.1 + pair_findings(*original, *actual, copy_video, *plan, i, j));
            if (copy_video || !b.is_regular_video()) && !str_eq(kind.as_str(), "attachment") {
                packets.push((i, j));
            }
            proof {
                assert forall|x: int| 0 <= x < remaining@.len() implies #[trigger] remaining@[x] < actual.streams@.len() by {
                    if x < q {
                        assert(remaining@[x] == st.0[x]);
                    } else {
                        assert(remaining@[x] == st.0[x + 1]);
                    }
                }
            }
        }
        proof {
            assert(findings@.take(head.len() as int) =~= head);
        }
        i += 1;
    }
    assert(findings@ =~= head + findings@.skip(head.len() as int));
    let ghost matched = findings@;
    let mut x: usize = 0;
    while x < remaining.len()
        invariant
            x <= remaining@.len(),
            findings@ == matched + added_streams(remaining@.take(x as int)),
        decreases remaining@.len() - x,
    {
        findings.push(Finding::Added(remaining[x]));
        assert(added_streams(remaining@.take(x + 1)) =~= added_streams(remaining@.take(x as int)).push(Finding::Added(remaining@[x as int])));
        x += 1;
    }
    assert(remaining@.take(remaining@.len() as int) =~= remaining@);
    (findings, packets)
}

} // verus!
