//! Checks of a finished transcode beyond its structure: packet fingerprints of
//! the matched streams, and the streams a seek test decodes.
use vstd::prelude::*;
use crate::fingerprint::PacketFingerprint;
use crate::media::{opt_view, regular_video, MediaInfo, MediaStream};
use crate::plan::TranscodePlan;

verus! {

/// What the packet fingerprints of one matched stream pair show.
#[derive(Debug, Clone, Copy, PartialEq, Eq, Structural)]
pub enum PacketFinding {
    /// The payload digests or the packet counts differ.
    Packets { input_packets: u64, output_packets: u64 },
    /// The digests of presentation times and durations differ.
    Timing,
}

/// The fingerprint listed for stream `index`, the first when listed twice.
pub open spec fn fingerprint_at(v: Seq<(usize, PacketFingerprint)>, index: usize) -> Option<PacketFingerprint>
    decreases v.len(),
{
    if v.len() == 0 {
        None
    } else if v[0].0 == index {
        Some(v[0].1)
    } else {
        fingerprint_at(v.drop_first(), index)
    }
}

/// Whether the plan writes input stream `index` as an attachment.
pub open spec fn planned_attachment(plan: TranscodePlan, index: usize) -> bool {
    exists|k: int| 0 <= k < plan.attachments@.len() && (#[trigger] plan.attachments@[k]).input_index == index
}

/// The findings for one pair: differing payloads or packet counts, then, for a
/// stream not written as an attachment, differing timing.
pub open spec fn pair_packet_findings(before: PacketFingerprint, after: PacketFingerprint, attachment: bool) -> Seq<
    PacketFinding,
> {
    (if before.sha256@ != after.sha256@ || before.packets != after.packets {
        seq![PacketFinding::Packets { input_packets: before.packets, output_packets: after.packets }]
    } else {
        seq![]
    }) + (if !attachment && before.timing_sha256@ != after.timing_sha256@ {
        seq![PacketFinding::Timing]
    } else {
        seq![]
    })
}

/// Whether both fingerprints of every pair (input position, output position) are listed.
pub open spec fn fingerprints_listed(
    original: MediaInfo,
    actual: MediaInfo,
    pairs: Seq<(usize, usize)>,
    source: Seq<(usize, PacketFingerprint)>,
    destination: Seq<(usize, PacketFingerprint)>,
) -> bool {
    forall|k: int|
        0 <= k < pairs.len() ==> {
            &&& (#[trigger] pairs[k]).0 < original.streams@.len()
            &&& pairs[k].1 < actual.streams@.len()
            &&& fingerprint_at(source, original.streams@[pairs[k].0 as int].index) is Some
            &&& fingerprint_at(destination, actual.streams@[pairs[k].1 as int].index) is Some
        }
}

/// The packet findings of the pairs, in order, each with its pair.
pub open spec fn packet_check(
    original: MediaInfo,
    actual: MediaInfo,
    pairs: Seq<(usize, usize)>,
    source: Seq<(usize, PacketFingerprint)>,
    destination: Seq<(usize, PacketFingerprint)>,
    plan: TranscodePlan,
) -> Seq<(usize, usize, PacketFinding)>
    decreases pairs.len(),
{
    if pairs.len() == 0 {
        seq![]
    } else {
        let (i, j) = pairs.last();
        let before = original.streams@[i as int].index;
        packet_check(original, actual, pairs.drop_last(), source, destination, plan) + pair_packet_findings(
            fingerprint_at(source, before).unwrap(),
            fingerprint_at(destination, actual.streams@[j as int].index).unwrap(),
            planned_attachment(plan, before),
        ).map_values(|f: PacketFinding| (i, j, f))
    }
}

fn same_digest(a: &[u8; 32], b: &[u8; 32]) -> (r: bool)
    ensures
        r == (a@ == b@),
{
    let mut i: usize = 0;
    while i < 32
        invariant
            i <= 32,
            a@.len() == 32,
            b@.len() == 32,
            forall|j: int| 0 <= j < i ==> a@[j] == b@[j],
        decreases 32 - i,
    {
        if a[i] != b[i] {
            assert(a@[i as int] != b@[i as int]);
            return false;
        }
        i += 1;
    }
    assert(a@ =~= b@);
    true
}

fn find_fingerprint<'a>(v: &'a Vec<(usize, PacketFingerprint)>, index: usize) -> (r: Option<&'a PacketFingerprint>)
    ensures
        match r {
            Some(f) => fingerprint_at(v@, index) == Some(*f),
            None => fingerprint_at(v@, index) is None,
        },
{
    let mut k: usize = 0;
    assert(v@.skip(0) =~= v@);
    while k < v.len()
        invariant
            k <= v@.len(),
            fingerprint_at(v@, index) == fingerprint_at(v@.skip(k as int), index),
        decreases v@.len() - k,
    {
        proof {
            assert(v@.skip(k as int)[0] == v@[k as int]);
            assert(v@.skip(k as int).drop_first() =~= v@.skip(k + 1));
        }
        if v[k].0 == index {
            return Some(&v[k].1);
        }
        k += 1;
    }
    None
}

/// Compares the packet fingerprints of each matched pair (positions of an input
/// and an output stream), `source` listing the input's and `destination` the
/// output's fingerprints by stream index.
pub fn packet_findings(
    original: &MediaInfo,
    actual: &MediaInfo,
    pairs: &Vec<(usize, usize)>,
    source: &Vec<(usize, PacketFingerprint)>,
    destination: &Vec<(usize, PacketFingerprint)>,
    plan: &TranscodePlan,
) -> (r: Vec<(usize, usize, PacketFinding)>)
    requires
        fingerprints_listed(*original, *actual, pairs@, source@, destination@),
    ensures
        r@ == packet_check(*original, *actual, pairs@, source@, destination@, *plan),
{
    let mut r: Vec<(usize, usize, PacketFinding)> = Vec::new();
    let mut k: usize = 0;
    while k < pairs.len()
        invariant
            k <= pairs@.len(),
            fingerprints_listed(*original, *actual, pairs@, source@, destination@),
            r@ == packet_check(*original, *actual, pairs@.take(k as int), source@, destination@, *plan),
        decreases pairs@.len() - k,
    {
        let (i, j) = pairs[k];
        assert(pairs@[k as int] == (i, j));
        let before_index = original.streams[i].index;
        let b = find_fingerprint(source, before_index).unwrap();
        let a = find_fingerprint(destination, actual.streams[j].index).unwrap();
        let attachment = plan.attachment_metadata(before_index).is_some();
        assert(attachment == planned_attachment(*plan, before_index));
        let ghost found = pair_packet_findings(*b, *a, attachment);
        let ghost before_r = r@;
        if !same_digest(&b.sha256, &a.sha256) || b.packets != a.packets {
            r.push((i, j, PacketFinding::Packets { input_packets: b.packets, output_packets: a.packets }));
        }
        if !attachment && !same_digest(&b.timing_sha256, &a.timing_sha256) {
            r.push((i, j, PacketFinding::Timing));
        }
        proof {
            assert(pairs@.take(k + 1).drop_last() =~= pairs@.take(k as int));
            assert(pairs@.take(k + 1).last() == (i, j));
            assert(r@ =~= before_r + found.map_values(|f: PacketFinding| (i, j, f)));
        }
        k += 1;
    }
    assert(pairs@.take(pairs@.len() as int) =~= pairs@);
    r
}

/// Whether a stream is an audio stream.
pub open spec fn audio_stream(s: MediaStream) -> bool {
    opt_view(s.codec_type) == Some("audio"@)
}

/// The index of the first stream of `streams` that is timed video.
pub open spec fn first_video(streams: Seq<MediaStream>) -> Option<usize>
    decreases streams.len(),
{
    if streams.len() == 0 {
        None
    } else if regular_video(streams[0]) {
        Some(streams[0].index)
    } else {
        first_video(streams.drop_first())
    }
}

/// The index of the first audio stream of `streams`.
pub open spec fn first_audio(streams: Seq<MediaStream>) -> Option<usize>
    decreases streams.len(),
{
    if streams.len() == 0 {
        None
    } else if audio_stream(streams[0]) {
        Some(streams[0].index)
    } else {
        first_audio(streams.drop_first())
    }
}

/// The streams a seek test decodes, when both files have timed video and audio:
/// the first of each in the input, then the first of each in the output.
pub open spec fn seek_test_streams(original: MediaInfo, actual: MediaInfo) -> Option<(usize, usize, usize, usize)> {
    match (
        first_video(original.streams@),
        first_audio(original.streams@),
        first_video(actual.streams@),
        first_audio(actual.streams@),
    ) {
        (Some(a), Some(b), Some(c), Some(d)) => Some((a, b, c, d)),
        _ => None,
    }
}

fn first_stream(streams: &Vec<MediaStream>, audio: bool) -> (r: Option<usize>)
    ensures
        audio ==> r == first_audio(streams@),
        !audio ==> r == first_video(streams@),
{
    let mut k: usize = 0;
    assert(streams@.skip(0) =~= streams@);
    while k < streams.len()
        invariant
            k <= streams@.len(),
            audio ==> first_audio(streams@) == first_audio(streams@.skip(k as int)),
            !audio ==> first_video(streams@) == first_video(streams@.skip(k as int)),
        decreases streams@.len() - k,
    {
        proof {
            assert(streams@.skip(k as int)[0] == streams@[k as int]);
            assert(streams@.skip(k as int).drop_first() =~= streams@.skip(k + 1));
        }
        let s = &streams[k];
        let hit = if audio {
            crate::media::opt_is(&s.codec_type, "audio")
        } else {
            s.is_regular_video()
        };
        if hit {
            return Some(s.index);
        }
        k += 1;
    }
    None
}

/// The streams a seek test decodes: input video, input audio, output video,
/// output audio.
pub fn seek_streams(original: &MediaInfo, actual: &MediaInfo) -> (r: Option<(usize, usize, usize, usize)>)
    ensures
        r == seek_test_streams(*original, *actual),
{
    match (
        first_stream(&original.streams, false),
        first_stream(&original.streams, true),
        first_stream(&actual.streams, false),
        first_stream(&actual.streams, true),
    ) {
        (Some(a), Some(b), Some(c), Some(d)) => Some((a, b, c, d)),
        _ => None,
    }
}

} // verus!
