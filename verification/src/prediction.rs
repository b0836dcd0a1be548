//! The integer bookkeeping of size prediction: which streams a sample carries
//! as fixed payload, packet byte totals, and filter-safe paths.
use vstd::prelude::*;
use vstd::string::*;
use crate::media::{opt_is, opt_view, regular_video, MediaInfo, MediaStream, Packet};
use crate::plan::{AttachmentInput, TranscodePlan, TranscodeRequest, VideoAction};
use crate::text::{chars_of, parse_u64_chars, parse_unsigned, push_char};

verus! {

/// A value ffprobe left out or wrote in a form that cannot be read.
#[derive(Debug, Clone, PartialEq, Eq)]
pub enum ProbeValueError {
    Missing { field: &'static str },
    Invalid { field: &'static str, value: String },
}

/// Why a prediction cannot go on.
#[derive(Debug, Clone, PartialEq, Eq)]
pub enum PredictionError {
    RequiresEncoding,
    NoVideo,
    MissingVideoDimensions { stream_index: usize },
    NoSampleVideo,
    MissingAttachmentSize { stream_index: usize },
    NoTimedPackets { sample: usize },
    ByteCountOverflow,
    PacketPayloadExceedsFile { sample: usize },
    ProbeValue(ProbeValueError),
}

/// The size a packet reports, or why it cannot be read.
pub open spec fn packet_size(p: Packet) -> Result<u64, ProbeValueError> {
    match p.size {
        None => Err(ProbeValueError::Missing { field: "size" }),
        Some(s) => match parse_unsigned(s@, u64::MAX as nat) {
            Some(n) => Ok(n as u64),
            None => Err(ProbeValueError::Invalid { field: "size", value: s }),
        },
    }
}

impl Packet {
    /// The packet's size in bytes.
    pub fn try_size(&self) -> (r: Result<u64, ProbeValueError>)
        ensures
            r == packet_size(*self),
    {
        match &self.size {
            None => Err(ProbeValueError::Missing { field: "size" }),
            Some(s) => {
                let chars = chars_of(s.as_str());
                match parse_u64_chars(chars.as_slice()) {
                    Some(n) => Ok(n),
                    None => Err(ProbeValueError::Invalid { field: "size", value: s.clone() }),
                }
            },
        }
    }
}

/// Whether a stream is carried as a fixed payload rather than timed packets:
/// attachments and attached pictures.
pub open spec fn is_untimed(s: MediaStream) -> bool {
    opt_view(s.codec_type) == Some("attachment"@) || (opt_view(s.codec_type) == Some("video"@)
        && !regular_video(s))
}

/// The fixed-payload streams of `ss` and their total extradata, or the first error:
/// an attachment without a size, or a total past `u64`.
pub open spec fn untimed_totals(ss: Seq<MediaStream>) -> Result<(Seq<usize>, nat), PredictionError>
    decreases ss.len(),
{
    if ss.len() == 0 {
        Ok((seq![], 0))
    } else {
        match untimed_totals(ss.drop_last()) {
            Err(e) => Err(e),
            Ok((ids, total)) => {
                let s = ss.last();
                if !is_untimed(s) {
                    Ok((ids, total))
                } else {
                    let attachment = opt_view(s.codec_type) == Some("attachment"@);
                    if attachment && s.extradata_size is None {
                        Err(PredictionError::MissingAttachmentSize { stream_index: s.index })
                    } else {
                        let size: nat = match s.extradata_size {
                            Some(n) => n as nat,
                            None => 0,
                        };
                        if total + size > u64::MAX {
                            Err(PredictionError::ByteCountOverflow)
                        } else {
                            Ok((ids.push(s.index), total + size))
                        }
                    }
                }
            },
        }
    }
}

/// The first timed video stream.
pub open spec fn first_regular_stream(ss: Seq<MediaStream>) -> Option<MediaStream>
    decreases ss.len(),
{
    if ss.len() == 0 {
        None
    } else if regular_video(ss[0]) {
        Some(ss[0])
    } else {
        first_regular_stream(ss.drop_first())
    }
}

/// The index of the first timed video stream.
pub open spec fn first_regular_video(ss: Seq<MediaStream>) -> Option<usize> {
    match first_regular_stream(ss) {
        Some(s) => Some(s.index),
        None => None,
    }
}

/// How an encoded sample's packets divide into timed media and fixed payload.
#[derive(Debug)]
pub struct SampleLayout {
    pub video_stream_index: usize,
    pub untimed_streams: Vec<usize>,
    pub fixed_extradata_bytes: u64,
}

fn first_video(ss: &Vec<MediaStream>) -> (r: Option<usize>)
    ensures
        r == first_regular_video(ss@),
{
    let mut i: usize = 0;
    assert(ss@.skip(0) =~= ss@);
    while i < ss.len()
        invariant
            i <= ss@.len(),
            first_regular_stream(ss@) == first_regular_stream(ss@.skip(i as int)),
        decreases ss@.len() - i,
    {
        proof {
            assert(ss@.skip(i as int)[0] == ss@[i as int]);
            assert(ss@.skip(i as int).drop_first() =~= ss@.skip(i + 1));
        }
        if ss[i].is_regular_video() {
            return Some(ss[i].index);
        }
        i += 1;
    }
    None
}

proof fn lemma_totals_error_sticks(ss: Seq<MediaStream>, n: nat)
    requires
        n <= ss.len(),
        untimed_totals(ss.take(n as int)) is Err,
    ensures
        untimed_totals(ss) == untimed_totals(ss.take(n as int)),
    decreases ss.len() - n,
{
    if n < ss.len() {
        assert(ss.take(n + 1 as int).drop_last() =~= ss.take(n as int));
        lemma_totals_error_sticks(ss, n + 1);
    } else {
        assert(ss.take(n as int) =~= ss);
    }
}

impl SampleLayout {
    /// The layout of a probed sample: its first timed video stream, its attachments
    /// and attached pictures, and their extradata bytes.
    pub fn from_media(media: &MediaInfo) -> (r: Result<SampleLayout, PredictionError>)
        ensures
            first_regular_video(media.streams@) is None ==> r == Err::<SampleLayout, PredictionError>(
                PredictionError::NoSampleVideo,
            ),
            first_regular_video(media.streams@) matches Some(v) ==> match untimed_totals(media.streams@) {
                Err(e) => r == Err::<SampleLayout, PredictionError>(e),
                Ok((ids, total)) => r matches Ok(l) && l.video_stream_index == v && l.untimed_streams@
                    == ids && l.fixed_extradata_bytes == total,
            },
    {
        let video_stream_index = match first_video(&media.streams) {
            Some(v) => v,
            None => return Err(PredictionError::NoSampleVideo),
        };
        let mut untimed_streams: Vec<usize> = Vec::new();
        let mut fixed: u64 = 0;
        let mut i: usize = 0;
        assert(media.streams@.take(0) =~= seq![]);
        while i < media.streams.len()
            invariant
                i <= media.streams@.len(),
                first_regular_video(media.streams@) == Some(video_stream_index),
                untimed_totals(media.streams@.take(i as int)) == Ok::<(Seq<usize>, nat), PredictionError>(
                    (untimed_streams@, fixed as nat),
                ),
            decreases media.streams@.len() - i,
        {
            let s = &media.streams[i];
            proof {
                assert(media.streams@.take(i + 1).drop_last() =~= media.streams@.take(i as int));
                assert(media.streams@.take(i + 1).last() == *s);
            }
            let attachment = opt_is(&s.codec_type, "attachment");
            let picture = opt_is(&s.codec_type, "video") && !s.is_regular_video();
            if attachment || picture {
                let size = if attachment {
                    match s.extradata_size {
                        Some(n) => n,
                        None => {
                            proof {
                                lemma_totals_error_sticks(media.streams@, i as nat + 1);
                            }
                            return Err(PredictionError::MissingAttachmentSize { stream_index: s.index });
                        },
                    }
                } else {
                    match s.extradata_size {
                        Some(n) => n,
                        None => 0,
                    }
                };
                match fixed.checked_add(size) {
                    Some(t) => fixed = t,
                    None => {
                        proof {
                            lemma_totals_error_sticks(media.streams@, i as nat + 1);
                        }
                        return Err(PredictionError::ByteCountOverflow);
                    },
                }
                untimed_streams.push(s.index);
            }
            i += 1;
        }
        assert(media.streams@.take(media.streams@.len() as int) =~= media.streams@);
        Ok(SampleLayout { video_stream_index, untimed_streams, fixed_extradata_bytes: fixed })
    }
}

/// Packet bytes of a sample: timed media and fixed payload.
#[derive(Debug, Clone, Copy, PartialEq, Eq, Structural)]
pub struct PacketBytes {
    pub timed: u64,
    pub untimed: u64,
}

/// Sums packet sizes into timed and fixed-payload bytes; the first unreadable size
/// or overflow stops the sum.
#[derive(Debug)]
pub struct PacketTally {
    pub bytes: PacketBytes,
    pub error: Option<PredictionError>,
}

/// The effect of one packet on a tally.
pub open spec fn tally_step(t: (PacketBytes, Option<PredictionError>), untimed: Seq<usize>, p: Packet) -> (
    PacketBytes,
    Option<PredictionError>,
) {
    let (bytes, error) = t;
    if error is Some {
        t
    } else {
        match packet_size(p) {
            Err(e) => (bytes, Some(PredictionError::ProbeValue(e))),
            Ok(size) => if untimed.contains(p.stream_index) {
                if bytes.untimed + size > u64::MAX {
                    (bytes, Some(PredictionError::ByteCountOverflow))
                } else {
                    (PacketBytes { untimed: (bytes.untimed + size) as u64, ..bytes }, None)
                }
            } else {
                if bytes.timed + size > u64::MAX {
                    (bytes, Some(PredictionError::ByteCountOverflow))
                } else {
                    (PacketBytes { timed: (bytes.timed + size) as u64, ..bytes }, None)
                }
            },
        }
    }
}

fn holds(v: &Vec<usize>, x: usize) -> (r: bool)
    ensures
        r == v@.contains(x),
{
    let mut i: usize = 0;
    while i < v.len()
        invariant
            i <= v@.len(),
            forall|j: int| 0 <= j < i ==> v@[j] != x,
        decreases v@.len() - i,
    {
        if v[i] == x {
            assert(v@[i as int] == x);
            return true;
        }
        i += 1;
    }
    false
}

impl PacketTally {
    /// An empty tally.
    pub fn new() -> (t: PacketTally)
        ensures
            t.bytes == (PacketBytes { timed: 0, untimed: 0 }),
            t.error is None,
    {
        PacketTally { bytes: PacketBytes { timed: 0, untimed: 0 }, error: None }
    }

    /// Adds one packet; packets of `untimed` streams count as fixed payload.
    pub fn add(&mut self, untimed: &Vec<usize>, packet: &Packet)
        ensures
            (final(self).bytes, final(self).error) == tally_step(
                (old(self).bytes, old(self).error),
                untimed@,
                *packet,
            ),
    {
        if self.error.is_some() {
            return;
        }
        let size = match packet.try_size() {
            Ok(s) => s,
            Err(e) => {
                self.error = Some(PredictionError::ProbeValue(e));
                return;
            },
        };
        if holds(untimed, packet.stream_index) {
            match self.bytes.untimed.checked_add(size) {
                Some(t) => self.bytes.untimed = t,
                None => self.error = Some(PredictionError::ByteCountOverflow),
            }
        } else {
            match self.bytes.timed.checked_add(size) {
                Some(t) => self.bytes.timed = t,
                None => self.error = Some(PredictionError::ByteCountOverflow),
            }
        }
    }

    /// The totals, or the error that stopped the sum.
    pub fn finish(self) -> (r: Result<PacketBytes, PredictionError>)
        ensures
            match self.error {
                Some(e) => r == Err::<PacketBytes, PredictionError>(e),
                None => r == Ok::<PacketBytes, PredictionError>(self.bytes),
            },
    {
        match self.error {
            Some(e) => Err(e),
            None => Ok(self.bytes),
        }
    }
}

/// The first stream of `ss` with index `i`.
pub open spec fn stream_with_index(ss: Seq<MediaStream>, i: usize) -> Option<MediaStream>
    decreases ss.len(),
{
    if ss.len() == 0 {
        None
    } else if ss[0].index == i {
        Some(ss[0])
    } else {
        stream_with_index(ss.drop_first(), i)
    }
}

/// The extradata bytes of the plan's re-attached attachment streams, or the first
/// error: an attachment whose stream has no size, or a total past `u64`.
pub open spec fn attachment_totals(atts: Seq<(usize, AttachmentInput)>, ss: Seq<MediaStream>) -> Result<
    nat,
    PredictionError,
>
    decreases atts.len(),
{
    if atts.len() == 0 {
        Ok(0)
    } else {
        match attachment_totals(atts.drop_last(), ss) {
            Err(e) => Err(e),
            Ok(total) => {
                let (i, input) = atts.last();
                if input != AttachmentInput::AttachmentStream {
                    Ok(total)
                } else {
                    match stream_with_index(ss, i) {
                        Some(s) => match s.extradata_size {
                            Some(n) => if total + n > u64::MAX {
                                Err(PredictionError::ByteCountOverflow)
                            } else {
                                Ok((total + n) as nat)
                            },
                            None => Err(PredictionError::MissingAttachmentSize { stream_index: i }),
                        },
                        None => Err(PredictionError::MissingAttachmentSize { stream_index: i }),
                    }
                }
            },
        }
    }
}

/// The attachments of a plan as (input index, source) pairs.
pub open spec fn attachment_sources(p: TranscodePlan) -> Seq<(usize, AttachmentInput)> {
    p.attachments@.map_values(|a: crate::plan::PlannedAttachment| (a.input_index, a.input))
}

fn find_stream(ss: &Vec<MediaStream>, i: usize) -> (r: Option<&MediaStream>)
    ensures
        match r {
            Some(s) => stream_with_index(ss@, i) == Some(*s),
            None => stream_with_index(ss@, i) is None,
        },
{
    let mut k: usize = 0;
    assert(ss@.skip(0) =~= ss@);
    while k < ss.len()
        invariant
            k <= ss@.len(),
            stream_with_index(ss@, i) == stream_with_index(ss@.skip(k as int), i),
        decreases ss@.len() - k,
    {
        proof {
            assert(ss@.skip(k as int)[0] == ss@[k as int]);
            assert(ss@.skip(k as int).drop_first() =~= ss@.skip(k + 1));
        }
        if ss[k].index == i {
            return Some(&ss[k]);
        }
        k += 1;
    }
    None
}

/// The extradata bytes of the attachment streams a plan re-attaches, which every
/// output carries whatever its length.
pub fn attachment_stream_bytes(plan: &TranscodePlan, media: &MediaInfo) -> (r: Result<u64, PredictionError>)
    ensures
        match attachment_totals(attachment_sources(*plan), media.streams@) {
            Ok(n) => r == Ok::<u64, PredictionError>(n as u64),
            Err(e) => r == Err::<u64, PredictionError>(e),
        },
{
    let ghost atts = attachment_sources(*plan);
    let mut total: u64 = 0;
    let mut k: usize = 0;
    assert(atts.take(0) =~= seq![]);
    while k < plan.attachments.len()
        invariant
            atts == attachment_sources(*plan),
            k <= atts.len(),
            attachment_totals(atts.take(k as int), media.streams@) == Ok::<nat, PredictionError>(total as nat),
        decreases atts.len() - k,
    {
        let a = &plan.attachments[k];
        proof {
            assert(atts.take(k + 1).drop_last() =~= atts.take(k as int));
            assert(atts.take(k + 1).last() == (a.input_index, a.input));
        }
        if a.input == AttachmentInput::AttachmentStream {
            let size = match find_stream(&media.streams, a.input_index) {
                Some(s) => match s.extradata_size {
                    Some(n) => n,
                    None => {
                        proof {
                            lemma_attachment_error_sticks(atts, media.streams@, k as nat + 1);
                        }
                        return Err(PredictionError::MissingAttachmentSize { stream_index: a.input_index });
                    },
                },
                None => {
                    proof {
                        lemma_attachment_error_sticks(atts, media.streams@, k as nat + 1);
                    }
                    return Err(PredictionError::MissingAttachmentSize { stream_index: a.input_index });
                },
            };
            match total.checked_add(size) {
                Some(t) => total = t,
                None => {
                    proof {
                        lemma_attachment_error_sticks(atts, media.streams@, k as nat + 1);
                    }
                    return Err(PredictionError::ByteCountOverflow);
                },
            }
        }
        k += 1;
    }
    assert(atts.take(atts.len() as int) =~= atts);
    Ok(total)
}

proof fn lemma_attachment_error_sticks(atts: Seq<(usize, AttachmentInput)>, ss: Seq<MediaStream>, n: nat)
    requires
        n <= atts.len(),
        attachment_totals(atts.take(n as int), ss) is Err,
    ensures
        attachment_totals(atts, ss) == attachment_totals(atts.take(n as int), ss),
    decreases atts.len() - n,
{
    if n < atts.len() {
        assert(atts.take(n + 1 as int).drop_last() =~= atts.take(n as int));
        lemma_attachment_error_sticks(atts, ss, n + 1);
    } else {
        assert(atts.take(n as int) =~= atts);
    }
}

/// The first timed video stream of a prediction's input, or why there is none
/// usable: stream copy has nothing to score, and the stream needs display dimensions.
pub open spec fn prediction_source(r: TranscodeRequest, m: MediaInfo) -> Result<usize, PredictionError> {
    if r.video is Copy {
        Err(PredictionError::RequiresEncoding)
    } else {
        match first_regular_stream(m.streams@) {
            None => Err(PredictionError::NoVideo),
            Some(s) => match (s.width, s.height) {
                (Some(w), Some(h)) => if w > 0 && h > 0 {
                    Ok(s.index)
                } else {
                    Err(PredictionError::MissingVideoDimensions { stream_index: s.index })
                },
                _ => Err(PredictionError::MissingVideoDimensions { stream_index: s.index }),
            },
        }
    }
}

/// The first timed video stream of `ss`.
pub fn first_video_stream(ss: &Vec<MediaStream>) -> (r: Option<&MediaStream>)
    ensures
        match r {
            Some(s) => first_regular_stream(ss@) == Some(*s),
            None => first_regular_stream(ss@) is None,
        },
{
    let mut i: usize = 0;
    assert(ss@.skip(0) =~= ss@);
    while i < ss.len()
        invariant
            i <= ss@.len(),
            first_regular_stream(ss@) == first_regular_stream(ss@.skip(i as int)),
        decreases ss@.len() - i,
    {
        proof {
            assert(ss@.skip(i as int)[0] == ss@[i as int]);
            assert(ss@.skip(i as int).drop_first() =~= ss@.skip(i + 1));
        }
        if ss[i].is_regular_video() {
            return Some(&ss[i]);
        }
        i += 1;
    }
    None
}

/// Finds the stream a prediction samples.
pub fn prediction_source_stream(request: &TranscodeRequest, media: &MediaInfo) -> (r: Result<usize, PredictionError>)
    ensures
        r == prediction_source(*request, *media),
{
    match request.video {
        VideoAction::Copy => return Err(PredictionError::RequiresEncoding),
        _ => {},
    }
    let s = match first_video_stream(&media.streams) {
        Some(s) => s,
        None => return Err(PredictionError::NoVideo),
    };
    match (s.width, s.height) {
        (Some(w), Some(h)) => if w > 0 && h > 0 {
            Ok(s.index)
        } else {
            Err(PredictionError::MissingVideoDimensions { stream_index: s.index })
        },
        _ => Err(PredictionError::MissingVideoDimensions { stream_index: s.index }),
    }
}

/// `path` quoted for an FFmpeg filter argument: backslashes become slashes, quotes
/// close and reopen the quoting, and colons are escaped.
pub open spec fn escaped_path(path: Seq<char>) -> Seq<char> {
    "'"@ + escaped_chars(path) + "'"@
}

/// The escaped characters of a filter path.
pub open spec fn escaped_chars(s: Seq<char>) -> Seq<char>
    decreases s.len(),
{
    if s.len() == 0 {
        seq![]
    } else {
        let c = s.last();
        escaped_chars(s.drop_last()) + if c == '\\' {
            seq!['/']
        } else if c == '\'' {
            seq!['\'', '\\', '\'', '\'']
        } else if c == ':' {
            seq!['\\', ':']
        } else {
            seq![c]
        }
    }
}

/// Quotes `path` for a filter argument.
pub fn escape_filter_path(path: &str) -> (r: String)
    ensures
        r@ == escaped_path(path@),
{
    let chars = chars_of(path);
    let mut out = String::new();
    push_char(&mut out, '\'');
    let ghost start = out@;
    let mut i: usize = 0;
    assert(path@.take(0) =~= seq![]);
    while i < chars.len()
        invariant
            chars@ == path@,
            i <= path@.len(),
            out@ == seq!['\''] + escaped_chars(path@.take(i as int)),
        decreases path@.len() - i,
    {
        let c = chars[i];
        let ghost before = out@;
        if c == '\\' {
            push_char(&mut out, '/');
        } else if c == '\'' {
            push_char(&mut out, '\'');
            push_char(&mut out, '\\');
            push_char(&mut out, '\'');
            push_char(&mut out, '\'');
        } else if c == ':' {
            push_char(&mut out, '\\');
            push_char(&mut out, ':');
        } else {
            push_char(&mut out, c);
        }
        proof {
            assert(path@.take(i + 1).drop_last() =~= path@.take(i as int));
            assert(path@.take(i + 1).last() == c);
            assert(out@ =~= seq!['\''] + escaped_chars(path@.take(i + 1)));
        }
        i += 1;
    }
    push_char(&mut out, '\'');
    proof {
        reveal_strlit("'");
        assert(path@.take(path@.len() as int) =~= path@);
        assert(out@ =~= escaped_path(path@));
    }
    out
}

/// What a sample's file splits into: the bytes that grow with its duration (timed
/// payload and muxing overhead) and the bytes that do not (fixed payload and
/// codec extradata).
#[derive(Debug, Clone, Copy, PartialEq, Eq, Structural)]
pub struct SizeSample {
    pub scalable_bytes: u64,
    pub fixed_bytes: u64,
}

/// Splits sample number `sample`, whose packets sum to `bytes` and whose file holds
/// `file_bytes`, given the codec extradata `fixed_extradata_bytes` of its streams.
pub fn size_sample(sample: usize, bytes: PacketBytes, fixed_extradata_bytes: u64, file_bytes: u64) -> (r: Result<
    SizeSample,
    PredictionError,
>)
    ensures
        bytes.timed == 0 ==> r == Err::<SizeSample, PredictionError>(PredictionError::NoTimedPackets { sample }),
        bytes.timed > 0 && bytes.timed + bytes.untimed + fixed_extradata_bytes > u64::MAX ==> r == Err::<
            SizeSample,
            PredictionError,
        >(PredictionError::ByteCountOverflow),
        bytes.timed > 0 && bytes.timed + bytes.untimed + fixed_extradata_bytes <= u64::MAX
            && bytes.timed + bytes.untimed + fixed_extradata_bytes > file_bytes ==> r == Err::<
            SizeSample,
            PredictionError,
        >(PredictionError::PacketPayloadExceedsFile { sample }),
        bytes.timed > 0 && bytes.timed + bytes.untimed + fixed_extradata_bytes <= file_bytes ==> r == Ok::<
            SizeSample,
            PredictionError,
        >(
            SizeSample {
                scalable_bytes: (file_bytes - bytes.untimed - fixed_extradata_bytes) as u64,
                fixed_bytes: (bytes.untimed + fixed_extradata_bytes) as u64,
            },
        ),
{
    if bytes.timed == 0 {
        return Err(PredictionError::NoTimedPackets { sample });
    }
    let fixed = match bytes.untimed.checked_add(fixed_extradata_bytes) {
        Some(f) => f,
        None => return Err(PredictionError::ByteCountOverflow),
    };
    let payload = match bytes.timed.checked_add(fixed) {
        Some(p) => p,
        None => return Err(PredictionError::ByteCountOverflow),
    };
    if payload > file_bytes {
        return Err(PredictionError::PacketPayloadExceedsFile { sample });
    }
    let mux = file_bytes - payload;
    Ok(SizeSample { scalable_bytes: bytes.timed + mux, fixed_bytes: fixed })
}

} // verus!
