//! Quality points, emulation candidates and quality validation.
use vstd::prelude::*;
use vstd::string::*;
use crate::decoding::{backend_parsed_from, names_backend, DecodingBackend};
use crate::encoding::{
    encoder_parse_error, lemma_parsed_encoding_unique, parsed_encoding, preset_update, encoding_name, encoding_rate, message, multipass_from_text, quality_bounds_of, NvencMultipass,
    RateControl, VideoEncoding,
};
use crate::plan::VideoAction;
use crate::text::{
    chars_of, decimal, decimal_string, is_char, parse_u8_chars, parse_unsigned, split_by,
    split_chars, string_of, trim, trim_chars, views,
};

verus! {

/// The range a quality item `N` or `FIRST-LAST` names, when it is well formed.
pub open spec fn item_range(item: Seq<char>) -> Option<(u8, u8)> {
    let parts = split_by(item, is_char('-'));
    if parts.len() == 1 {
        match parse_unsigned(trim(parts[0]), 255) {
            Some(n) => Some((n as u8, n as u8)),
            None => None,
        }
    } else if parts.len() == 2 {
        match (parse_unsigned(trim(parts[0]), 255), parse_unsigned(trim(parts[1]), 255)) {
            (Some(a), Some(b)) => if a <= b {
                Some((a as u8, b as u8))
            } else {
                None
            },
            _ => None,
        }
    } else {
        None
    }
}

/// The ranges of the comma-separated items `items`, or `None` if one is malformed.
pub open spec fn item_ranges(items: Seq<Seq<char>>) -> Option<Seq<(u8, u8)>>
    decreases items.len(),
{
    if items.len() == 0 {
        Some(seq![])
    } else {
        match (item_ranges(items.drop_last()), item_range(items.last())) {
            (Some(rs), Some(r)) => Some(rs.push(r)),
            _ => None,
        }
    }
}

/// The ranges a `--range` value lists: none for blank text.
pub open spec fn quality_ranges(text: Seq<char>) -> Option<Seq<(u8, u8)>> {
    if trim(text).len() == 0 {
        Some(seq![])
    } else {
        item_ranges(split_by(text, is_char(',')))
    }
}

/// Whether some range of `rs` holds `x`.
pub open spec fn covered(rs: Seq<(u8, u8)>, x: u8) -> bool {
    exists|i: int| 0 <= i < rs.len() && (#[trigger] rs[i]).0 <= x <= rs[i].1
}

/// Whether `v` is strictly increasing.
pub open spec fn strictly_increasing(v: Seq<u8>) -> bool {
    forall|i: int, j: int| 0 <= i < j < v.len() ==> v[i] < v[j]
}

/// The message for a malformed `--range` value.
pub open spec fn range_message(text: Seq<char>) -> Seq<char> {
    "expected QUALITY or FIRST-LAST items separated by commas, got "@ + text
}

fn parse_item(item: &[char]) -> (r: Option<(u8, u8)>)
    ensures
        r == item_range(item@),
{
    let parts = split_chars(item, '-');
    assert(views(parts@) == split_by(item@, is_char('-')));
    if parts.len() == 1 {
        let t = trim_chars(parts[0].as_slice());
        assert(views(parts@)[0] == parts@[0]@);
        match parse_u8_chars(t.as_slice()) {
            Some(n) => Some((n, n)),
            None => None,
        }
    } else if parts.len() == 2 {
        assert(views(parts@)[0] == parts@[0]@);
        assert(views(parts@)[1] == parts@[1]@);
        let a = parse_u8_chars(trim_chars(parts[0].as_slice()).as_slice());
        let b = parse_u8_chars(trim_chars(parts[1].as_slice()).as_slice());
        match (a, b) {
            (Some(a), Some(b)) => if a <= b {
                Some((a, b))
            } else {
                None
            },
            _ => None,
        }
    } else {
        None
    }
}

/// Marks in `marks` every point of `r`.
fn mark_range(marks: &mut Vec<bool>, r: (u8, u8))
    requires
        old(marks)@.len() == 256,
    ensures
        final(marks)@.len() == 256,
        forall|x: int| 0 <= x < 256 ==> #[trigger] final(marks)@[x] == (old(marks)@[x] || (r.0 <= x
            <= r.1)),
{
    let (lo, hi) = r;
    if lo > hi {
        return;
    }
    let ghost orig = marks@;
    let mut x: usize = lo as usize;
    while x <= hi as usize
        invariant
            marks@.len() == 256,
            orig.len() == 256,
            lo <= hi,
            lo as usize <= x <= hi as usize + 1,
            forall|y: int| 0 <= y < 256 ==> #[trigger] marks@[y] == (orig[y] || (lo <= y < x)),
        decreases hi as usize + 1 - x,
    {
        marks.set(x, true);
        x += 1;
    }
}

/// The marked points, in increasing order.
fn marked_points(marks: &Vec<bool>) -> (v: Vec<u8>)
    requires
        marks@.len() == 256,
    ensures
        strictly_increasing(v@),
        forall|x: u8| v@.contains(x) <==> marks@[x as int],
{
    let mut v: Vec<u8> = Vec::new();
    let mut x: usize = 0;
    while x < 256
        invariant
            marks@.len() == 256,
            x <= 256,
            strictly_increasing(v@),
            forall|i: int| 0 <= i < v@.len() ==> v@[i] < x,
            forall|y: u8| y < x ==> (v@.contains(y) <==> marks@[y as int]),
            forall|y: u8| y >= x ==> !v@.contains(y),
        decreases 256 - x,
    {
        if marks[x] {
            let ghost before = v@;
            v.push(x as u8);
            assert forall|y: u8| y < x + 1 implies (v@.contains(y) <==> marks@[y as int]) by {
                if y == x {
                    assert(v@[v@.len() - 1] == y);
                } else if v@.contains(y) {
                    let k = choose|k: int| 0 <= k < v@.len() && v@[k] == y;
                    assert(k < before.len());
                    assert(before.contains(y));
                } else if before.contains(y) {
                    let k = choose|k: int| 0 <= k < before.len() && before[k] == y;
                    assert(v@[k] == y);
                }
            }
            assert forall|y: u8| y >= x + 1 implies !v@.contains(y) by {
                if v@.contains(y) {
                    let k = choose|k: int| 0 <= k < v@.len() && v@[k] == y;
                    if k < before.len() {
                        assert(before.contains(y));
                    }
                }
            }
        } else {
            assert forall|y: u8| y < x + 1 implies (v@.contains(y) <==> marks@[y as int]) by {
                if y == x && v@.contains(y) {
                    let k = choose|k: int| 0 <= k < v@.len() && v@[k] == y;
                    assert(v@[k] < x);
                }
            }
        }
        x += 1;
    }
    v
}

/// Parses a `--range` value: comma-separated qualities `N` and inclusive ranges
/// `FIRST-LAST` (spaces allowed around each number), each within `0..=255`;
/// blank text lists none. The points come back sorted, each once.
pub fn parse_quality_points(text: &str) -> (r: Result<Vec<u8>, String>)
    ensures
        match quality_ranges(text@) {
            Some(rs) => r matches Ok(v) && strictly_increasing(v@) && forall|x: u8|
                v@.contains(x) <==> covered(rs, x),
            None => r matches Err(m) && m@ == range_message(text@),
        },
{
    let chars = chars_of(text);
    let mut ranges: Vec<(u8, u8)> = Vec::new();
    let t = trim_chars(chars.as_slice());
    if t.len() > 0 {
        let items = split_chars(chars.as_slice(), ',');
        let ghost all = views(items@);
        let mut i: usize = 0;
        while i < items.len()
            invariant
                all == views(items@),
                all == split_by(text@, is_char(',')),
                trim(text@).len() > 0,
                i <= all.len(),
                item_ranges(all.take(i as int)) == Some(ranges@),
            decreases all.len() - i,
        {
            proof {
                assert(all.take(i + 1).drop_last() =~= all.take(i as int));
                assert(all.take(i + 1).last() == items@[i as int]@);
            }
            match parse_item(items[i].as_slice()) {
                Some(r) => ranges.push(r),
                None => {
                    proof {
                        lemma_ranges_fail(all, i as nat + 1);
                        assert(all.take(all.len() as int) =~= all);
                    }
                    return Err(message(
                        "expected QUALITY or FIRST-LAST items separated by commas, got ",
                        text,
                    ));
                },
            }
            i += 1;
        }
        assert(all.take(all.len() as int) =~= all);
    } else {
        assert(ranges@ =~= seq![]);
    }
    let mut marks: Vec<bool> = Vec::new();
    let mut k: usize = 0;
    while k < 256
        invariant
            k <= 256,
            marks@.len() == k,
            forall|y: int| 0 <= y < k ==> !marks@[y],
        decreases 256 - k,
    {
        marks.push(false);
        k += 1;
    }
    let mut j: usize = 0;
    while j < ranges.len()
        invariant
            j <= ranges@.len(),
            marks@.len() == 256,
            forall|y: u8| #[trigger] marks@[y as int] == covered(ranges@.take(j as int), y),
        decreases ranges@.len() - j,
    {
        let ghost before = marks@;
        mark_range(&mut marks, ranges[j]);
        assert forall|y: u8| #[trigger] marks@[y as int] == covered(ranges@.take(j + 1), y) by {
            let rs = ranges@.take(j + 1);
            assert(rs[j as int] == ranges@[j as int]);
            if covered(ranges@.take(j as int), y) {
                let w = choose|w: int| 0 <= w < j && (#[trigger] ranges@.take(j as int)[w]).0 <= y
                    <= ranges@.take(j as int)[w].1;
                assert(rs[w] == ranges@.take(j as int)[w]);
            }
            if covered(rs, y) {
                let w = choose|w: int| 0 <= w < j + 1 && (#[trigger] rs[w]).0 <= y <= rs[w].1;
                if w < j {
                    assert(ranges@.take(j as int)[w] == rs[w]);
                }
            }
        }
        j += 1;
    }
    assert(ranges@.take(ranges@.len() as int) =~= ranges@);
    Ok(marked_points(&marks))
}

proof fn lemma_ranges_fail(items: Seq<Seq<char>>, n: nat)
    requires
        n <= items.len(),
        item_ranges(items.take(n as int)) is None,
    ensures
        item_ranges(items) is None,
    decreases items.len() - n,
{
    if n < items.len() {
        assert(items.take(n + 1 as int).drop_last() =~= items.take(n as int));
        lemma_ranges_fail(items, n + 1);
    } else {
        assert(items.take(n as int) =~= items);
    }
}

/// Whether some list of `lists` holds `x`.
pub open spec fn listed_in(lists: Seq<Vec<u8>>, x: u8) -> bool {
    exists|i: int| 0 <= i < lists.len() && (#[trigger] lists[i])@.contains(x)
}

/// The points of every `--range` value together, sorted, each once.
pub fn merge_quality_points(lists: &Vec<Vec<u8>>) -> (v: Vec<u8>)
    ensures
        strictly_increasing(v@),
        forall|x: u8| v@.contains(x) <==> listed_in(lists@, x),
{
    let mut marks: Vec<bool> = Vec::new();
    let mut k: usize = 0;
    while k < 256
        invariant
            k <= 256,
            marks@.len() == k,
            forall|y: int| 0 <= y < k ==> !marks@[y],
        decreases 256 - k,
    {
        marks.push(false);
        k += 1;
    }
    let mut i: usize = 0;
    while i < lists.len()
        invariant
            i <= lists@.len(),
            marks@.len() == 256,
            forall|y: u8| #[trigger] marks@[y as int] == listed_in(lists@.take(i as int), y),
        decreases lists@.len() - i,
    {
        let list = &lists[i];
        let mut j: usize = 0;
        while j < list.len()
            invariant
                i < lists@.len(),
                *list == lists@[i as int],
                j <= list@.len(),
                marks@.len() == 256,
                forall|y: u8| #[trigger] marks@[y as int] == (listed_in(lists@.take(i as int), y)
                    || list@.take(j as int).contains(y)),
            decreases list@.len() - j,
        {
            let x = list[j];
            let ghost before = marks@;
            marks.set(x as usize, true);
            assert(list@.take(j + 1)[j as int] == x);
            assert forall|y: u8| #[trigger] marks@[y as int] == (listed_in(lists@.take(i as int), y)
                || list@.take(j + 1).contains(y)) by {
                if list@.take(j as int).contains(y) {
                    let w = choose|w: int| 0 <= w < j && #[trigger] list@.take(j as int)[w] == y;
                    assert(list@.take(j + 1)[w] == y);
                }
                if list@.take(j + 1).contains(y) {
                    let w = choose|w: int| 0 <= w < j + 1 && #[trigger] list@.take(j + 1)[w] == y;
                    if w < j {
                        assert(list@.take(j as int)[w] == y);
                    }
                }
            }
            j += 1;
        }
        assert(list@.take(list@.len() as int) =~= list@);
        assert forall|y: u8| #[trigger] marks@[y as int] == listed_in(lists@.take(i + 1), y) by {
            let ls = lists@.take(i + 1);
            assert(ls[i as int] == *list);
            if listed_in(lists@.take(i as int), y) {
                let w = choose|w: int| 0 <= w < i && (#[trigger] lists@.take(i as int)[w])@.contains(y);
                assert(ls[w] == lists@.take(i as int)[w]);
            }
            if listed_in(ls, y) {
                let w = choose|w: int| 0 <= w < i + 1 && (#[trigger] ls[w])@.contains(y);
                if w < i {
                    assert(lists@.take(i as int)[w] == ls[w]);
                }
            }
        }
        i += 1;
    }
    assert(lists@.take(lists@.len() as int) =~= lists@);
    marked_points(&marks)
}

/// One emulation candidate: a decoder, an encoder with its knobs, and its qualities.
#[derive(Debug, Clone)]
pub struct Candidate {
    pub decoding: DecodingBackend,
    pub encoding: VideoEncoding,
    pub qualities: Vec<u8>,
}

/// The message for a candidate with the wrong number of fields.
pub open spec fn candidate_shape_message(v: Seq<char>) -> Seq<char> {
    "expected DECODE:ENCODE:PRESET:RANGE[:MULTIPASS], got "@ + v
}

/// The encoding a candidate's fields give: the named encoder, its preset, and for
/// NVENC an optional multipass mode; `None` when one of them is refused.
pub open spec fn candidate_encoding(segs: Seq<Seq<char>>, e: VideoEncoding) -> bool {
    exists|e0: VideoEncoding|
        crate::encoding::encoder_parse_error(segs[1]) is None && #[trigger] parsed_encoding(segs[1], e0)
            && match crate::encoding::preset_update(e0, segs[2]) {
            Ok(e1) => if segs.len() == 4 {
                e == e1
            } else {
                match e1 {
                    VideoEncoding::Nvenc { codec, rate, preset, .. } => match multipass_from_text(
                        segs[4],
                    ) {
                        Some(m) => e == (VideoEncoding::Nvenc {
                            codec,
                            rate,
                            preset,
                            multipass: Some(m),
                        }),
                        None => false,
                    },
                    _ => false,
                }
            },
            Err(_) => false,
        }
}

/// The encoding `NAME[=DEVICE]` names, when it names one.
pub open spec fn named_encoding(v: Seq<char>) -> VideoEncoding {
    choose|e: VideoEncoding| parsed_encoding(v, e)
}

/// Why `DECODE:ENCODE:PRESET:RANGE[:MULTIPASS]` is not a candidate, checking the
/// fields in order; `None` when it is one.
pub open spec fn candidate_refusal(value: Seq<char>) -> Option<Seq<char>> {
    let segs = split_by(value, is_char(':'));
    if !(segs.len() == 4 || segs.len() == 5) {
        Some(candidate_shape_message(value))
    } else if !names_backend(segs[0]) {
        Some("unknown decoder "@ + segs[0])
    } else if encoder_parse_error(segs[1]) is Some {
        encoder_parse_error(segs[1])
    } else {
        match preset_update(named_encoding(segs[1]), segs[2]) {
            Err(m) => Some(m),
            Ok(e1) => if quality_ranges(segs[3]) is None {
                Some(range_message(segs[3]))
            } else if segs.len() == 5 && !(e1 is Nvenc) {
                Some("multipass is only supported by NVENC"@)
            } else if segs.len() == 5 && multipass_from_text(segs[4]) is None {
                Some("unknown NVENC multipass mode "@ + segs[4])
            } else {
                None
            },
        }
    }
}

/// Parses `DECODE:ENCODE:PRESET:RANGE[:MULTIPASS]`.
pub fn parse_candidate(value: &str) -> (r: Result<Candidate, String>)
    ensures
        candidate_refusal(value@) matches Some(m) ==> r matches Err(x) && x@ == m,
        candidate_refusal(value@) is None ==> r is Ok,
        r matches Ok(c) ==> {
            let segs = split_by(value@, is_char(':'));
            &&& segs.len() == 4 || segs.len() == 5
            &&& backend_parsed_from(segs[0], c.decoding)
            &&& candidate_encoding(segs, c.encoding)
            &&& quality_ranges(segs[3]) matches Some(rs) && strictly_increasing(c.qualities@)
                && forall|x: u8| c.qualities@.contains(x) <==> covered(rs, x)
        },
{
    let chars = chars_of(value);
    let parts = split_chars(chars.as_slice(), ':');
    let ghost segs = views(parts@);
    if !(parts.len() == 4 || parts.len() == 5) {
        return Err(message("expected DECODE:ENCODE:PRESET:RANGE[:MULTIPASS], got ", value));
    }
    proof {
        assert(segs[0] == parts@[0]@);
        assert(segs[1] == parts@[1]@);
        assert(segs[2] == parts@[2]@);
        assert(segs[3] == parts@[3]@);
        if parts@.len() == 5 {
            assert(segs[4] == parts@[4]@);
        }
    }
    let decoding = match DecodingBackend::from_str(string_of(parts[0].as_slice()).as_str()) {
        Ok(d) => d,
        Err(m) => return Err(m),
    };
    let mut encoding = match VideoEncoding::from_str(string_of(parts[1].as_slice()).as_str()) {
        Ok(e) => e,
        Err(m) => return Err(m),
    };
    let ghost e0 = encoding;
    proof {
        lemma_parsed_encoding_unique(segs[1], e0, named_encoding(segs[1]));
    }
    match encoding.try_set_preset(string_of(parts[2].as_slice()).as_str()) {
        Ok(()) => {},
        Err(m) => return Err(m),
    }
    let ghost e1 = encoding;
    let qualities = match parse_quality_points(string_of(parts[3].as_slice()).as_str()) {
        Ok(q) => q,
        Err(m) => return Err(m),
    };
    if parts.len() == 5 {
        let mode = match NvencMultipass::from_str(string_of(parts[4].as_slice()).as_str()) {
            Ok(m) => m,
            Err(m) => {
                match encoding {
                    VideoEncoding::Nvenc { .. } => return Err(m),
                    _ => return Err(String::from_str("multipass is only supported by NVENC")),
                }
            },
        };
        match &mut encoding {
            VideoEncoding::Nvenc { multipass, .. } => {
                *multipass = Some(mode);
            },
            _ => return Err(String::from_str("multipass is only supported by NVENC")),
        }
    }
    assert(candidate_encoding(segs, encoding));
    Ok(Candidate { decoding, encoding, qualities })
}

/// Why an encoding's constant quality is outside its encoder's range, if it is.
pub open spec fn quality_error(e: VideoEncoding) -> Option<Seq<char>> {
    match encoding_rate(e) {
        Some(RateControl::Quality(q)) => {
            let (lo, hi) = quality_bounds_of(e);
            if lo <= q <= hi {
                None
            } else {
                Some(
                    encoding_name(e) + " quality must be in "@ + decimal(lo as nat) + "..="@ + decimal(
                        hi as nat,
                    ) + ", got "@ + decimal(q as nat),
                )
            }
        },
        _ => None,
    }
}

/// Why an encoding's constant quality is refused, if it is.
fn quality_check(e: &VideoEncoding) -> (r: Result<(), String>)
    ensures
        match quality_error(*e) {
            Some(m) => r matches Err(x) && x@ == m,
            None => r is Ok,
        },
{
    match e.rate() {
        Some(RateControl::Quality(q)) => {
            let (lo, hi) = e.quality_bounds();
            if lo <= q && q <= hi {
                Ok(())
            } else {
                let m = String::from_str(e.name()).concat(" quality must be in ").concat(
                    decimal_string(lo as u64).as_str(),
                ).concat("..=").concat(decimal_string(hi as u64).as_str()).concat(", got ").concat(
                    decimal_string(q as u64).as_str(),
                );
                Err(m)
            }
        },
        _ => Ok(()),
    }
}

/// Checks that a constant quality lies in the encoder's range; gives the encoding
/// back when it does.
pub fn validate_encoding(e: VideoEncoding) -> (r: Result<VideoEncoding, String>)
    ensures
        match quality_error(e) {
            Some(m) => r matches Err(x) && x@ == m,
            None => r == Ok::<VideoEncoding, String>(e),
        },
{
    match quality_check(&e) {
        Ok(()) => Ok(e),
        Err(m) => Err(m),
    }
}

/// Checks the encoding of a video action, giving the action back when it passes;
/// copying always passes.
pub fn validate_action(a: VideoAction) -> (r: Result<VideoAction, String>)
    ensures
        match a {
            VideoAction::Copy => r == Ok::<VideoAction, String>(a),
            VideoAction::Encode(e) => match quality_error(e) {
                Some(m) => r matches Err(x) && x@ == m,
                None => r == Ok::<VideoAction, String>(a),
            },
        },
{
    match a {
        VideoAction::Copy => Ok(VideoAction::Copy),
        VideoAction::Encode(e) => match validate_encoding(e) {
            Ok(e) => Ok(VideoAction::Encode(e)),
            Err(m) => Err(m),
        },
    }
}

/// How much of a transcode VMAF scores: every frame, or one in `n`.
#[derive(Debug, Clone, Copy, PartialEq, Eq, Structural)]
pub enum VmafMode {
    Full,
    Subsample(u32),
}

/// `s` with ASCII letters lower-cased equals `full`.
pub open spec fn is_full(s: Seq<char>) -> bool {
    crate::media::same_ignoring_ascii_case(s, "full"@)
}

/// The message for a VMAF mode that is neither `full` nor a positive integer.
pub open spec fn vmaf_mode_message() -> Seq<char> {
    "expected 'full' or an integer greater than 0"@
}

impl VmafMode {
    /// Parses `full` (any ASCII case) or a positive `u32`.
    pub fn from_str(value: &str) -> (r: Result<VmafMode, String>)
        ensures
            is_full(value@) ==> r == Ok::<VmafMode, String>(VmafMode::Full),
            !is_full(value@) ==> match parse_unsigned(value@, u32::MAX as nat) {
                Some(n) => if n > 0 {
                    r == Ok::<VmafMode, String>(VmafMode::Subsample(n as u32))
                } else {
                    r matches Err(m) && m@ == vmaf_mode_message()
                },
                None => r matches Err(m) && m@ == vmaf_mode_message(),
            },
    {
        if crate::media::eq_ignoring_ascii_case(value, "full") {
            return Ok(VmafMode::Full);
        }
        let chars = chars_of(value);
        match crate::text::parse_u32_chars(chars.as_slice()) {
            Some(n) => if n > 0 {
                Ok(VmafMode::Subsample(n))
            } else {
                Err(String::from_str("expected 'full' or an integer greater than 0"))
            },
            None => Err(String::from_str("expected 'full' or an integer greater than 0")),
        }
    }

    /// The subsampling a mode asks of libvmaf: none for every frame.
    pub fn n_subsample(self) -> (r: Option<u32>)
        ensures
            r == match self {
                VmafMode::Full => None::<u32>,
                VmafMode::Subsample(n) => Some(n),
            },
    {
        match self {
            VmafMode::Full => None,
            VmafMode::Subsample(n) => Some(n),
        }
    }
}

} // verus!
