//! The warning each finding of an output check is reported with, and the debug
//! renderings of the values it names.
use vstd::prelude::*;
use vstd::string::*;
use crate::compare::{
    compare_structure, structure_comparison, flag_list, layout_of, planned_tags, planned_tags_of, set_flags, side_views, sort_positions, sorted_by_type,
    value_ignoring_case, value_of_key, Field, Finding, Scope, SideView, TagView,
};
use crate::media::{opt_view, samples_of, stream_descriptor, stream_kind, Chroma, MediaInfo, MediaStream, SideData};
use crate::output_check::PacketFinding;
use crate::plan::TranscodePlan;
use crate::laws::law_findings_can_be_reported;
use crate::text::{chars_of, decimal, decimal_string, digit_char, push_char};

verus! {

/// A hexadecimal digit, lower case.
pub open spec fn hex_digit(n: nat) -> char {
    if n < 10 {
        digit_char(n)
    } else {
        ((n - 10 + 97) as u32) as char
    }
}

/// `n` in hexadecimal, lower case, without leading zeros.
pub open spec fn hex_of(n: nat) -> Seq<char>
    decreases n,
{
    if n < 16 {
        seq![hex_digit(n)]
    } else {
        hex_of(n / 16) + seq![hex_digit(n % 16)]
    }
}

/// How `char::escape_debug` writes `c` inside a quoted string, for ASCII: the usual
/// backslash escapes, `\u{..}` for the other control characters, and `c` itself
/// otherwise.
pub open spec fn escaped_char(c: char) -> Seq<char> {
    if c == '\t' {
        seq!['\\', 't']
    } else if c == '\r' {
        seq!['\\', 'r']
    } else if c == '\n' {
        seq!['\\', 'n']
    } else if c == '\\' {
        seq!['\\', '\\']
    } else if c == '"' {
        seq!['\\', '"']
    } else if c == '\0' {
        seq!['\\', '0']
    } else if (c as u32) < 0x20 || (c as u32) == 0x7f {
        seq!['\\', 'u', '{'] + hex_of((c as u32) as nat) + seq!['}']
    } else {
        seq![c]
    }
}

/// `s` with each character escaped.
pub open spec fn escaped(s: Seq<char>) -> Seq<char>
    decreases s.len(),
{
    if s.len() == 0 {
        seq![]
    } else {
        escaped(s.drop_last()) + escaped_char(s.last())
    }
}

/// The debug rendering of a string: quoted and escaped.
pub open spec fn quoted(s: Seq<char>) -> Seq<char> {
    seq!['"'] + escaped(s) + seq!['"']
}

/// The debug rendering of an optional string.
pub open spec fn debug_text(o: Option<Seq<char>>) -> Seq<char> {
    match o {
        Some(s) => "Some("@ + quoted(s) + ")"@,
        None => "None"@,
    }
}

/// The debug rendering of an optional number.
pub open spec fn debug_number(o: Option<nat>) -> Seq<char> {
    match o {
        Some(n) => "Some("@ + decimal(n) + ")"@,
        None => "None"@,
    }
}

/// A signed number in decimal.
pub open spec fn signed_decimal(i: int) -> Seq<char> {
    if i < 0 {
        "-"@ + decimal((-i) as nat)
    } else {
        decimal(i as nat)
    }
}

/// Items joined by `", "`.
pub open spec fn joined(items: Seq<Seq<char>>) -> Seq<char>
    decreases items.len(),
{
    if items.len() == 0 {
        seq![]
    } else if items.len() == 1 {
        items[0]
    } else {
        joined(items.drop_last()) + ", "@ + items.last()
    }
}

/// The debug rendering of the set disposition flags, as a map.
pub open spec fn debug_flags(f: Seq<(Seq<char>, i32)>) -> Seq<char> {
    "{"@ + joined(f.map_values(|p: (Seq<char>, i32)| quoted(p.0) + ": "@ + signed_decimal(p.1 as int))) + "}"@
}

/// The debug rendering of component bit depths, as a list.
pub open spec fn debug_depths(v: Seq<u8>) -> Seq<char> {
    "["@ + joined(v.map_values(|d: u8| decimal(d as nat))) + "]"@
}

/// The debug rendering of a chroma subsampling.
pub open spec fn debug_chroma(c: Chroma) -> Seq<char> {
    match c {
        Chroma::Yuv { log2_width, log2_height } => "Yuv { log2_width: "@ + decimal(log2_width as nat)
            + ", log2_height: "@ + decimal(log2_height as nat) + " }"@,
        Chroma::Rgb => "Rgb"@,
        Chroma::Gray => "Gray"@,
    }
}

/// The debug rendering of a flag.
pub open spec fn debug_bool(b: bool) -> Seq<char> {
    if b {
        "true"@
    } else {
        "false"@
    }
}

/// The rendering of tags whose values are JSON text, as a map.
pub open spec fn debug_json_map(t: TagView) -> Seq<char> {
    "{"@ + joined(t.map_values(|p: (Seq<char>, Seq<char>)| quoted(p.0) + ": "@ + p.1)) + "}"@
}

/// The rendering of the side data of a stream, sorted by type, as a list.
pub open spec fn debug_side_data(v: Seq<SideView>) -> Seq<char> {
    "["@ + joined(
        v.map_values(
            |d: SideView| "SideData { side_data_type: "@ + debug_text(d.0) + ", extra: "@ + debug_json_map(d.1)
                + " }"@,
        ),
    ) + "]"@
}

/// The rendering of program tags, JSON text, as a list.
pub open spec fn debug_programs(v: Seq<Option<Seq<char>>>) -> Seq<char> {
    "["@ + joined(
        v.map_values(
            |o: Option<Seq<char>>| match o {
                Some(t) => "Some("@ + t + ")"@,
                None => "None"@,
            },
        ),
    ) + "]"@
}

fn hex_text(n: u32) -> (r: String)
    requires
        n < 256,
    ensures
        r@ == hex_of(n as nat),
{
    let mut r = String::new();
    if n >= 16 {
        let h = n / 16;
        push_char(&mut r, if h < 10 { char_of(48 + h) } else { char_of(87 + h) });
    }
    let l = n % 16;
    push_char(&mut r, if l < 10 { char_of(48 + l) } else { char_of(87 + l) });
    proof {
        if n >= 16 {
            assert(hex_of((n / 16) as nat) == seq![hex_digit((n / 16) as nat)]);
        }
    }
    r
}

fn char_of(n: u32) -> (c: char)
    requires
        48 <= n < 128,
    ensures
        c == (n as char),
{
    let b: u8 = n as u8;
    b as char
}

/// `s` escaped as `str`'s debug rendering escapes it.
fn escaped_text(s: &str) -> (r: String)
    ensures
        r@ == escaped(s@),
{
    let cs = chars_of(s);
    let mut out = String::new();
    let mut i: usize = 0;
    while i < cs.len()
        invariant
            i <= cs@.len(),
            cs@ == s@,
            out@ == escaped(cs@.take(i as int)),
        decreases cs@.len() - i,
    {
        let c = cs[i];
        proof {
            assert(cs@.take(i + 1).drop_last() =~= cs@.take(i as int));
            assert(cs@.take(i + 1).last() == c);
            reveal_strlit("\\t");
            reveal_strlit("\\r");
            reveal_strlit("\\n");
            reveal_strlit("\\\\");
            reveal_strlit("\\\"");
            reveal_strlit("\\0");
            reveal_strlit("\\u{");
            reveal_strlit("}");
            assert("\\t"@ =~= seq!['\\', 't']);
            assert("\\r"@ =~= seq!['\\', 'r']);
            assert("\\n"@ =~= seq!['\\', 'n']);
            assert("\\\\"@ =~= seq!['\\', '\\']);
            assert("\\\""@ =~= seq!['\\', '"']);
            assert("\\0"@ =~= seq!['\\', '0']);
            assert("\\u{"@ =~= seq!['\\', 'u', '{']);
            assert("}"@ =~= seq!['}']);
        }
        if c == '\t' {
            out = out.concat("\\t");
        } else if c == '\r' {
            out = out.concat("\\r");
        } else if c == '\n' {
            out = out.concat("\\n");
        } else if c == '\\' {
            out = out.concat("\\\\");
        } else if c == '"' {
            out = out.concat("\\\"");
        } else if c == '\0' {
            out = out.concat("\\0");
        } else if (c as u32) < 0x20 || (c as u32) == 0x7f {
            out = out.concat("\\u{").concat(hex_text(c as u32).as_str()).concat("}");
        } else {
            push_char(&mut out, c);
        }
        assert(out@ =~= escaped(cs@.take(i as int)) + escaped_char(c));
        i += 1;
    }
    assert(cs@.take(cs@.len() as int) =~= cs@);
    out
}

/// The debug rendering of a string.
pub fn quoted_text(s: &str) -> (r: String)
    ensures
        r@ == quoted(s@),
{
    let mut r = String::new();
    push_char(&mut r, '"');
    let r = r.concat(escaped_text(s).as_str());
    let mut r = r;
    push_char(&mut r, '"');
    assert(r@ =~= quoted(s@));
    r
}

/// The debug rendering of an optional string.
pub fn debug_text_of(o: &Option<String>) -> (r: String)
    ensures
        r@ == debug_text(opt_view(*o)),
{
    match o {
        Some(s) => String::from_str("Some(").concat(quoted_text(s.as_str()).as_str()).concat(")"),
        None => String::from_str("None"),
    }
}

/// The debug rendering of an optional number.
pub fn debug_number_of(o: Option<u64>) -> (r: String)
    ensures
        r@ == debug_number(
            match o {
                Some(n) => Some(n as nat),
                None => None,
            },
        ),
{
    match o {
        Some(n) => String::from_str("Some(").concat(decimal_string(n).as_str()).concat(")"),
        None => String::from_str("None"),
    }
}

fn widen(o: Option<u32>) -> (r: Option<u64>)
    ensures
        r == match o {
            Some(n) => Some(n as u64),
            None => None::<u64>,
        },
{
    match o {
        Some(n) => Some(n as u64),
        None => None,
    }
}

fn signed_text(i: i32) -> (r: String)
    ensures
        r@ == signed_decimal(i as int),
{
    if i < 0 {
        let m: i64 = i as i64;
        String::from_str("-").concat(decimal_string((-m) as u64).as_str())
    } else {
        decimal_string(i as u64)
    }
}

/// Appends `item` to the joined `items` so far.
fn join_push(out: String, first: bool, item: &str, ghost_items: Ghost<Seq<Seq<char>>>) -> (r: String)
    requires
        first <==> ghost_items@.len() == 0,
        out@ == joined(ghost_items@),
    ensures
        r@ == joined(ghost_items@.push(item@)),
{
    proof {
        let p = ghost_items@.push(item@);
        assert(p.drop_last() =~= ghost_items@);
    }
    if first {
        assert(ghost_items@.push(item@) =~= seq![item@]);
        String::from_str(item)
    } else {
        out.concat(", ").concat(item)
    }
}

/// The debug rendering of the set disposition flags.
pub fn debug_flags_of(d: &Vec<(String, i32)>) -> (r: String)
    ensures
        r@ == debug_flags(set_flags(d@)),
{
    let f = flag_list(d);
    let ghost items = set_flags(d@).map_values(|p: (Seq<char>, i32)| quoted(p.0) + ": "@ + signed_decimal(p.1 as int));
    let mut out = String::new();
    let mut i: usize = 0;
    while i < f.len()
        invariant
            i <= f@.len(),
            f@.len() == set_flags(d@).len(),
            forall|k: int| 0 <= k < f@.len() ==> (#[trigger] f@[k]).0@ == set_flags(d@)[k].0 && f@[k].1 == set_flags(d@)[k].1,
            items == set_flags(d@).map_values(|p: (Seq<char>, i32)| quoted(p.0) + ": "@ + signed_decimal(p.1 as int)),
            out@ == joined(items.take(i as int)),
        decreases f@.len() - i,
    {
        let item = quoted_text(f[i].0.as_str()).concat(": ").concat(signed_text(f[i].1).as_str());
        assert(items.take(i + 1) =~= items.take(i as int).push(item@));
        out = join_push(out, i == 0, item.as_str(), Ghost(items.take(i as int)));
        i += 1;
    }
    assert(items.take(f@.len() as int) =~= items);
    let r = String::from_str("{").concat(out.as_str()).concat("}");
    r
}

/// The debug rendering of component bit depths.
pub fn debug_depths_of(v: &Vec<u8>) -> (r: String)
    ensures
        r@ == debug_depths(v@),
{
    let ghost items = v@.map_values(|d: u8| decimal(d as nat));
    let mut out = String::new();
    let mut i: usize = 0;
    while i < v.len()
        invariant
            i <= v@.len(),
            items == v@.map_values(|d: u8| decimal(d as nat)),
            out@ == joined(items.take(i as int)),
        decreases v@.len() - i,
    {
        let item = decimal_string(v[i] as u64);
        assert(items.take(i + 1) =~= items.take(i as int).push(item@));
        out = join_push(out, i == 0, item.as_str(), Ghost(items.take(i as int)));
        i += 1;
    }
    assert(items.take(v@.len() as int) =~= items);
    String::from_str("[").concat(out.as_str()).concat("]")
}

/// The debug rendering of a chroma subsampling.
pub fn debug_chroma_of(c: Chroma) -> (r: String)
    ensures
        r@ == debug_chroma(c),
{
    match c {
        Chroma::Yuv { log2_width, log2_height } => String::from_str("Yuv { log2_width: ").concat(
            decimal_string(log2_width as u64).as_str(),
        ).concat(", log2_height: ").concat(decimal_string(log2_height as u64).as_str()).concat(" }"),
        Chroma::Rgb => String::from_str("Rgb"),
        Chroma::Gray => String::from_str("Gray"),
    }
}

/// The debug rendering of a flag.
pub fn debug_bool_of(b: bool) -> (r: String)
    ensures
        r@ == debug_bool(b),
{
    if b {
        String::from_str("true")
    } else {
        String::from_str("false")
    }
}

fn debug_json_map_of(t: &crate::media::Tags) -> (r: String)
    ensures
        r@ == debug_json_map(t.view_pairs()),
{
    let e = t.entries();
    let ghost items = t.view_pairs().map_values(|p: (Seq<char>, Seq<char>)| quoted(p.0) + ": "@ + p.1);
    let mut out = String::new();
    let mut i: usize = 0;
    while i < e.len()
        invariant
            i <= e@.len(),
            crate::media::pair_views(e@) == t.view_pairs(),
            items == t.view_pairs().map_values(|p: (Seq<char>, Seq<char>)| quoted(p.0) + ": "@ + p.1),
            out@ == joined(items.take(i as int)),
        decreases e@.len() - i,
    {
        let item = quoted_text(e[i].0.as_str()).concat(": ").concat(e[i].1.as_str());
        assert(t.view_pairs()[i as int] == (e@[i as int].0@, e@[i as int].1@));
        assert(items.take(i + 1) =~= items.take(i as int).push(item@));
        out = join_push(out, i == 0, item.as_str(), Ghost(items.take(i as int)));
        i += 1;
    }
    assert(items.take(e@.len() as int) =~= items);
    String::from_str("{").concat(out.as_str()).concat("}")
}

/// The rendering of a stream's side data, sorted by type.
pub fn debug_side_data_of(v: &Vec<SideData>) -> (r: String)
    ensures
        r@ == debug_side_data(sorted_by_type(side_views(v@))),
{
    let pos = sort_positions(v);
    let ghost sorted = sorted_by_type(side_views(v@));
    let ghost items = sorted.map_values(
        |d: SideView| "SideData { side_data_type: "@ + debug_text(d.0) + ", extra: "@ + debug_json_map(d.1) + " }"@,
    );
    let mut out = String::new();
    let mut i: usize = 0;
    while i < pos.len()
        invariant
            i <= pos@.len(),
            pos@.len() == v@.len(),
            forall|k: int| 0 <= k < pos@.len() ==> #[trigger] pos@[k] < v@.len(),
            pos@.map_values(|p: usize| side_views(v@)[p as int]) == sorted,
            items == sorted.map_values(
                |d: SideView| "SideData { side_data_type: "@ + debug_text(d.0) + ", extra: "@ + debug_json_map(d.1)
                    + " }"@,
            ),
            out@ == joined(items.take(i as int)),
        decreases pos@.len() - i,
    {
        let d = &v[pos[i]];
        proof {
            assert(sorted[i as int] == side_views(v@)[pos@[i as int] as int]);
        }
        let item = String::from_str("SideData { side_data_type: ").concat(debug_text_of(&d.side_data_type).as_str()).concat(
            ", extra: ",
        ).concat(debug_json_map_of(&d.extra).as_str()).concat(" }");
        assert(items.take(i + 1) =~= items.take(i as int).push(item@));
        out = join_push(out, i == 0, item.as_str(), Ghost(items.take(i as int)));
        i += 1;
    }
    assert(items.take(pos@.len() as int) =~= items);
    String::from_str("[").concat(out.as_str()).concat("]")
}

/// The rendering of program tags.
pub fn debug_programs_of(v: &Vec<Option<String>>) -> (r: String)
    ensures
        r@ == debug_programs(v@.map_values(|t: Option<String>| opt_view(t))),
{
    let ghost views = v@.map_values(|t: Option<String>| opt_view(t));
    let ghost items = views.map_values(
        |o: Option<Seq<char>>| match o {
            Some(t) => "Some("@ + t + ")"@,
            None => "None"@,
        },
    );
    let mut out = String::new();
    let mut i: usize = 0;
    while i < v.len()
        invariant
            i <= v@.len(),
            views == v@.map_values(|t: Option<String>| opt_view(t)),
            items == views.map_values(
                |o: Option<Seq<char>>| match o {
                    Some(t) => "Some("@ + t + ")"@,
                    None => "None"@,
                },
            ),
            out@ == joined(items.take(i as int)),
        decreases v@.len() - i,
    {
        let item = match &v[i] {
            Some(t) => String::from_str("Some(").concat(t.as_str()).concat(")"),
            None => String::from_str("None"),
        };
        assert(items.take(i + 1) =~= items.take(i as int).push(item@));
        out = join_push(out, i == 0, item.as_str(), Ghost(items.take(i as int)));
        i += 1;
    }
    assert(items.take(v@.len() as int) =~= items);
    String::from_str("[").concat(out.as_str()).concat("]")
}

/// The name a field is reported under.
pub open spec fn field_name(f: Field) -> Seq<char> {
    match f {
        Field::Duration => "duration"@,
        Field::ProgramMetadata => "program metadata"@,
        Field::Count => "count"@,
        Field::StartTime => "start_time"@,
        Field::EndTime => "end_time"@,
        Field::Disposition => "disposition"@,
        Field::SideData => "side data"@,
        Field::CodecName => "codec_name"@,
        Field::ExtradataSize => "extradata_size"@,
        Field::ExtradataHash => "extradata_hash"@,
        Field::SampleFmt => "sample_fmt"@,
        Field::SampleRate => "sample_rate"@,
        Field::Channels => "channels"@,
        Field::ChannelLayout => "channel_layout"@,
        Field::BitsPerSample => "bits_per_sample"@,
        Field::BitsPerRawSample => "bits_per_raw_sample"@,
        Field::Width => "width"@,
        Field::Height => "height"@,
        Field::SampleAspectRatio => "sample_aspect_ratio"@,
        Field::ColorRange => "color_range"@,
        Field::ColorSpace => "color_space"@,
        Field::ColorTransfer => "color_transfer"@,
        Field::ColorPrimaries => "color_primaries"@,
        Field::ChromaLocation => "chroma_location"@,
        Field::FieldOrder => "field_order"@,
        Field::ComponentDepths => "component bit depths"@,
        Field::Chroma => "chroma"@,
        Field::Alpha => "alpha"@,
    }
}

/// The name a field is reported under.
pub fn field_label(f: Field) -> (r: &'static str)
    ensures
        r@ == field_name(f),
{
    match f {
        Field::Duration => "duration",
        Field::ProgramMetadata => "program metadata",
        Field::Count => "count",
        Field::StartTime => "start_time",
        Field::EndTime => "end_time",
        Field::Disposition => "disposition",
        Field::SideData => "side data",
        Field::CodecName => "codec_name",
        Field::ExtradataSize => "extradata_size",
        Field::ExtradataHash => "extradata_hash",
        Field::SampleFmt => "sample_fmt",
        Field::SampleRate => "sample_rate",
        Field::Channels => "channels",
        Field::ChannelLayout => "channel_layout",
        Field::BitsPerSample => "bits_per_sample",
        Field::BitsPerRawSample => "bits_per_raw_sample",
        Field::Width => "width",
        Field::Height => "height",
        Field::SampleAspectRatio => "sample_aspect_ratio",
        Field::ColorRange => "color_range",
        Field::ColorSpace => "color_space",
        Field::ColorTransfer => "color_transfer",
        Field::ColorPrimaries => "color_primaries",
        Field::ChromaLocation => "chroma_location",
        Field::FieldOrder => "field_order",
        Field::ComponentDepths => "component bit depths",
        Field::Chroma => "chroma",
        Field::Alpha => "alpha",
    }
}

/// Where a finding is, as the warning names it: the container, the chapters, a
/// chapter by position, or a stream pair by kind and stream indices.
pub open spec fn scope_text(om: MediaInfo, am: MediaInfo, scope: Scope) -> Seq<char> {
    match scope {
        Scope::Container => "container"@,
        Scope::Chapters => "chapters"@,
        Scope::Chapter(k) => "chapter #"@ + decimal(k as nat),
        Scope::Stream(i, j) => stream_kind(om.streams@[i as int]) + " stream #"@ + decimal(
            om.streams@[i as int].index as nat,
        ) + " -> #"@ + decimal(am.streams@[j as int].index as nat),
    }
}

/// Whether a scope's positions lie within the two probes.
pub open spec fn scope_fits(om: MediaInfo, am: MediaInfo, scope: Scope) -> bool {
    match scope {
        Scope::Chapter(k) => k < om.chapters@.len() && k < am.chapters@.len(),
        Scope::Stream(i, j) => i < om.streams@.len() && j < am.streams@.len(),
        _ => true,
    }
}

/// The debug renderings of two optional strings.
pub open spec fn text_pair(b: Option<String>, a: Option<String>) -> (Seq<char>, Seq<char>) {
    (debug_text(opt_view(b)), debug_text(opt_view(a)))
}

/// An optional number as a mathematical one.
pub open spec fn number_view(o: Option<u64>) -> Option<nat> {
    match o {
        Some(n) => Some(n as nat),
        None => None,
    }
}

/// An optional small number as a mathematical one.
pub open spec fn small_number_view(o: Option<u32>) -> Option<nat> {
    match o {
        Some(n) => Some(n as nat),
        None => None,
    }
}

/// The sample layout of a stream's pixel format, when known.
pub open spec fn layout_view(m: MediaInfo, s: MediaStream) -> Option<(Seq<u8>, Chroma, bool)> {
    match stream_descriptor(m, s) {
        Some(p) => samples_of(p),
        None => None,
    }
}

/// The renderings of a stream field before and after.
pub open spec fn stream_values(om: MediaInfo, am: MediaInfo, b: MediaStream, a: MediaStream, f: Field) -> (
    Seq<char>,
    Seq<char>,
) {
    match f {
        Field::Disposition => (debug_flags(set_flags(b.disposition@)), debug_flags(set_flags(a.disposition@))),
        Field::SideData => (
            debug_side_data(sorted_by_type(side_views(b.side_data_list@))),
            debug_side_data(sorted_by_type(side_views(a.side_data_list@))),
        ),
        Field::ExtradataSize => (debug_number(number_view(b.extradata_size)), debug_number(number_view(a.extradata_size))),
        Field::CodecName => text_pair(b.codec_name, a.codec_name),
        Field::ExtradataHash => text_pair(b.extradata_hash, a.extradata_hash),
        Field::SampleFmt => text_pair(b.sample_fmt, a.sample_fmt),
        Field::SampleRate => text_pair(b.sample_rate, a.sample_rate),
        Field::ChannelLayout => text_pair(b.channel_layout, a.channel_layout),
        Field::BitsPerRawSample => text_pair(b.bits_per_raw_sample, a.bits_per_raw_sample),
        Field::SampleAspectRatio => text_pair(b.sample_aspect_ratio, a.sample_aspect_ratio),
        Field::ColorRange => text_pair(b.color_range, a.color_range),
        Field::ColorSpace => text_pair(b.color_space, a.color_space),
        Field::ColorTransfer => text_pair(b.color_transfer, a.color_transfer),
        Field::ColorPrimaries => text_pair(b.color_primaries, a.color_primaries),
        Field::ChromaLocation => text_pair(b.chroma_location, a.chroma_location),
        Field::FieldOrder => text_pair(b.field_order, a.field_order),
        Field::Channels => (debug_number(small_number_view(b.channels)), debug_number(small_number_view(a.channels))),
        Field::BitsPerSample => (debug_number(small_number_view(b.bits_per_sample)), debug_number(small_number_view(a.bits_per_sample))),
        Field::Width => (debug_number(small_number_view(b.width)), debug_number(small_number_view(a.width))),
        Field::Height => (debug_number(small_number_view(b.height)), debug_number(small_number_view(a.height))),
        Field::ComponentDepths | Field::Chroma | Field::Alpha => match (layout_view(om, b), layout_view(am, a)) {
            (Some(x), Some(y)) => match f {
                Field::ComponentDepths => (debug_depths(x.0), debug_depths(y.0)),
                Field::Chroma => (debug_chroma(x.1), debug_chroma(y.1)),
                _ => (debug_bool(x.2), debug_bool(y.2)),
            },
            _ => (seq![], seq![]),
        },
        _ => (seq![], seq![]),
    }
}

/// The renderings of the values a changed field had before and after.
pub open spec fn field_values(om: MediaInfo, am: MediaInfo, scope: Scope, f: Field) -> (Seq<char>, Seq<char>) {
    match f {
        Field::Duration => text_pair(om.format.duration, am.format.duration),
        Field::ProgramMetadata => (
            debug_programs(om.programs@.map_values(|t: Option<String>| opt_view(t))),
            debug_programs(am.programs@.map_values(|t: Option<String>| opt_view(t))),
        ),
        Field::Count => (decimal(om.chapters@.len()), decimal(am.chapters@.len())),
        Field::StartTime => match scope {
            Scope::Chapter(k) => text_pair(om.chapters@[k as int].start_time, am.chapters@[k as int].start_time),
            _ => (seq![], seq![]),
        },
        Field::EndTime => match scope {
            Scope::Chapter(k) => text_pair(om.chapters@[k as int].end_time, am.chapters@[k as int].end_time),
            _ => (seq![], seq![]),
        },
        _ => match scope {
            Scope::Stream(i, j) => stream_values(om, am, om.streams@[i as int], am.streams@[j as int], f),
            _ => (seq![], seq![]),
        },
    }
}

/// The tags expected in a scope: the container's, a chapter's, or an input stream's
/// (the plan's when it re-attaches the stream).
pub open spec fn expected_tags(om: MediaInfo, plan: TranscodePlan, scope: Scope) -> Option<TagView> {
    match scope {
        Scope::Container => Some(om.format.tags.view_pairs()),
        Scope::Chapter(k) => Some(om.chapters@[k as int].tags.view_pairs()),
        Scope::Stream(i, _) => Some(
            match planned_tags(plan.attachments@, om.streams@[i as int].index) {
                Some(t) => t,
                None => om.streams@[i as int].tags.view_pairs(),
            },
        ),
        Scope::Chapters => None,
    }
}

/// The tags found in a scope of the output.
pub open spec fn actual_tags(am: MediaInfo, scope: Scope) -> Option<TagView> {
    match scope {
        Scope::Container => Some(am.format.tags.view_pairs()),
        Scope::Chapter(k) => Some(am.chapters@[k as int].tags.view_pairs()),
        Scope::Stream(_, j) => Some(am.streams@[j as int].tags.view_pairs()),
        Scope::Chapters => None,
    }
}

/// Whether every position a finding names lies within the probes and their tags.
pub open spec fn finding_fits(om: MediaInfo, am: MediaInfo, plan: TranscodePlan, f: Finding) -> bool {
    match f {
        Finding::Changed(scope, _) => scope_fits(om, am, scope),
        Finding::TagChanged(scope, k) => scope_fits(om, am, scope) && (expected_tags(om, plan, scope) matches Some(
            t,
        ) && k < t.len()),
        Finding::TagAdded(scope, k) => scope_fits(om, am, scope) && (actual_tags(am, scope) matches Some(t) && k
            < t.len()),
        Finding::Missing(i) => i < om.streams@.len(),
        Finding::Added(j) => j < am.streams@.len(),
        Finding::AttachmentUnverifiable(scope) => scope_fits(om, am, scope),
        Finding::LayoutUnknown(scope) => scope is Stream && scope_fits(om, am, scope),
    }
}

/// The warning a finding is reported with.
pub open spec fn warning_text(om: MediaInfo, am: MediaInfo, plan: TranscodePlan, f: Finding) -> Seq<char> {
    match f {
        Finding::Changed(scope, field) => scope_text(om, am, scope) + ", "@ + field_name(field) + ": "@
            + field_values(om, am, scope, field).0 + " -> "@ + field_values(om, am, scope, field).1,
        Finding::TagChanged(scope, k) => {
            let e = expected_tags(om, plan, scope)->0;
            scope_text(om, am, scope) + ", metadata "@ + quoted(e[k as int].0) + ": "@ + debug_text(
                Some(e[k as int].1),
            ) + " -> "@ + debug_text(value_ignoring_case(actual_tags(am, scope)->0, e[k as int].0))
        },
        Finding::TagAdded(scope, k) => {
            let t = actual_tags(am, scope)->0;
            scope_text(om, am, scope) + ", metadata "@ + quoted(t[k as int].0) + ": added "@ + quoted(t[k as int].1)
        },
        Finding::Missing(i) => stream_kind(om.streams@[i as int]) + " stream #"@ + decimal(
            om.streams@[i as int].index as nat,
        ) + ": missing from output"@,
        Finding::Added(j) => stream_kind(am.streams@[j as int]) + " stream #"@ + decimal(
            am.streams@[j as int].index as nat,
        ) + ": added in output"@,
        Finding::AttachmentUnverifiable(scope) => scope_text(om, am, scope)
            + ": cannot verify attachment contents; extradata hash unavailable"@,
        Finding::LayoutUnknown(scope) => match scope {
            Scope::Stream(i, j) => scope_text(om, am, scope) + ": cannot verify bit depth/chroma/alpha for pixel formats "@
                + debug_text(opt_view(om.streams@[i as int].pix_fmt)) + " -> "@ + debug_text(
                opt_view(am.streams@[j as int].pix_fmt),
            ),
            _ => scope_text(om, am, scope),
        },
    }
}

fn scope_line(om: &MediaInfo, am: &MediaInfo, scope: Scope) -> (r: String)
    requires
        scope_fits(*om, *am, scope),
    ensures
        r@ == scope_text(*om, *am, scope),
{
    match scope {
        Scope::Container => String::from_str("container"),
        Scope::Chapters => String::from_str("chapters"),
        Scope::Chapter(k) => String::from_str("chapter #").concat(decimal_string(k as u64).as_str()),
        Scope::Stream(i, j) => om.streams[i].kind().concat(" stream #").concat(
            decimal_string(om.streams[i].index as u64).as_str(),
        ).concat(" -> #").concat(decimal_string(am.streams[j].index as u64).as_str()),
    }
}

fn text_pair_of(b: &Option<String>, a: &Option<String>) -> (r: (String, String))
    ensures
        (r.0@, r.1@) == text_pair(*b, *a),
{
    (debug_text_of(b), debug_text_of(a))
}

fn small_pair_of(b: Option<u32>, a: Option<u32>) -> (r: (String, String))
    ensures
        (r.0@, r.1@) == (debug_number(small_number_view(b)), debug_number(small_number_view(a))),
{
    (debug_number_of(widen(b)), debug_number_of(widen(a)))
}

fn stream_values_of(om: &MediaInfo, am: &MediaInfo, b: &MediaStream, a: &MediaStream, f: Field) -> (r: (String, String))
    ensures
        (r.0@, r.1@) == stream_values(*om, *am, *b, *a, f),
{
    match f {
        Field::Disposition => (debug_flags_of(&b.disposition), debug_flags_of(&a.disposition)),
        Field::SideData => (debug_side_data_of(&b.side_data_list), debug_side_data_of(&a.side_data_list)),
        Field::ExtradataSize => (debug_number_of(b.extradata_size), debug_number_of(a.extradata_size)),
        Field::CodecName => text_pair_of(&b.codec_name, &a.codec_name),
        Field::ExtradataHash => text_pair_of(&b.extradata_hash, &a.extradata_hash),
        Field::SampleFmt => text_pair_of(&b.sample_fmt, &a.sample_fmt),
        Field::SampleRate => text_pair_of(&b.sample_rate, &a.sample_rate),
        Field::ChannelLayout => text_pair_of(&b.channel_layout, &a.channel_layout),
        Field::BitsPerRawSample => text_pair_of(&b.bits_per_raw_sample, &a.bits_per_raw_sample),
        Field::SampleAspectRatio => text_pair_of(&b.sample_aspect_ratio, &a.sample_aspect_ratio),
        Field::ColorRange => text_pair_of(&b.color_range, &a.color_range),
        Field::ColorSpace => text_pair_of(&b.color_space, &a.color_space),
        Field::ColorTransfer => text_pair_of(&b.color_transfer, &a.color_transfer),
        Field::ColorPrimaries => text_pair_of(&b.color_primaries, &a.color_primaries),
        Field::ChromaLocation => text_pair_of(&b.chroma_location, &a.chroma_location),
        Field::FieldOrder => text_pair_of(&b.field_order, &a.field_order),
        Field::Channels => small_pair_of(b.channels, a.channels),
        Field::BitsPerSample => small_pair_of(b.bits_per_sample, a.bits_per_sample),
        Field::Width => small_pair_of(b.width, a.width),
        Field::Height => small_pair_of(b.height, a.height),
        Field::ComponentDepths | Field::Chroma | Field::Alpha => match (layout_of(om, b), layout_of(am, a)) {
            (Some(x), Some(y)) => match f {
                Field::ComponentDepths => (debug_depths_of(&x.component_depths), debug_depths_of(&y.component_depths)),
                Field::Chroma => (debug_chroma_of(x.chroma), debug_chroma_of(y.chroma)),
                _ => (debug_bool_of(x.alpha), debug_bool_of(y.alpha)),
            },
            _ => (String::new(), String::new()),
        },
        _ => (String::new(), String::new()),
    }
}

fn field_values_of(om: &MediaInfo, am: &MediaInfo, scope: Scope, f: Field) -> (r: (String, String))
    requires
        scope_fits(*om, *am, scope),
    ensures
        (r.0@, r.1@) == field_values(*om, *am, scope, f),
{
    match f {
        Field::Duration => text_pair_of(&om.format.duration, &am.format.duration),
        Field::ProgramMetadata => (debug_programs_of(&om.programs), debug_programs_of(&am.programs)),
        Field::Count => (decimal_string(om.chapters.len() as u64), decimal_string(am.chapters.len() as u64)),
        Field::StartTime => match scope {
            Scope::Chapter(k) => text_pair_of(&om.chapters[k].start_time, &am.chapters[k].start_time),
            _ => (String::new(), String::new()),
        },
        Field::EndTime => match scope {
            Scope::Chapter(k) => text_pair_of(&om.chapters[k].end_time, &am.chapters[k].end_time),
            _ => (String::new(), String::new()),
        },
        _ => match scope {
            Scope::Stream(i, j) => stream_values_of(om, am, &om.streams[i], &am.streams[j], f),
            _ => (String::new(), String::new()),
        },
    }
}

fn expected_tags_of<'a>(om: &'a MediaInfo, plan: &'a TranscodePlan, scope: Scope) -> (r: Option<&'a crate::media::Tags>)
    requires
        scope is Stream ==> scope->Stream_0 < om.streams@.len(),
        scope is Chapter ==> scope->Chapter_0 < om.chapters@.len(),
    ensures
        match r {
            Some(t) => expected_tags(*om, *plan, scope) == Some(t.view_pairs()),
            None => expected_tags(*om, *plan, scope) is None,
        },
{
    match scope {
        Scope::Container => Some(&om.format.tags),
        Scope::Chapter(k) => Some(&om.chapters[k].tags),
        Scope::Stream(i, _) => match planned_tags_of(plan, om.streams[i].index) {
            Some(t) => Some(t),
            None => Some(&om.streams[i].tags),
        },
        Scope::Chapters => None,
    }
}

fn actual_tags_of<'a>(am: &'a MediaInfo, scope: Scope) -> (r: Option<&'a crate::media::Tags>)
    requires
        scope is Stream ==> scope->Stream_1 < am.streams@.len(),
        scope is Chapter ==> scope->Chapter_0 < am.chapters@.len(),
    ensures
        match r {
            Some(t) => actual_tags(*am, scope) == Some(t.view_pairs()),
            None => actual_tags(*am, scope) is None,
        },
{
    match scope {
        Scope::Container => Some(&am.format.tags),
        Scope::Chapter(k) => Some(&am.chapters[k].tags),
        Scope::Stream(_, j) => Some(&am.streams[j].tags),
        Scope::Chapters => None,
    }
}

/// The warning a finding of `compare_structure` is reported with: where it is, and
/// the values that differ, in their debug renderings.
pub fn warning(om: &MediaInfo, am: &MediaInfo, plan: &TranscodePlan, f: Finding) -> (r: String)
    requires
        finding_fits(*om, *am, *plan, f),
    ensures
        r@ == warning_text(*om, *am, *plan, f),
{
    let r = match f {
        Finding::Changed(scope, field) => {
            let (b, a) = field_values_of(om, am, scope, field);
            let x = scope_line(om, am, scope).concat(", ").concat(field_label(field)).concat(": ").concat(b.as_str()).concat(
                " -> ",
            ).concat(a.as_str());
            assert(x@ =~= warning_text(*om, *am, *plan, f));
            x
        },
        Finding::TagChanged(scope, k) => {
            let e = expected_tags_of(om, plan, scope).unwrap();
            let entries = e.entries();
            proof {
                assert(e.view_pairs()[k as int] == (entries@[k as int].0@, entries@[k as int].1@));
            }
            let key = entries[k].0.as_str();
            let value = entries[k].1.as_str();
            let found = value_of_key(actual_tags_of(am, scope).unwrap(), key);
            let now = match found {
                Some(v) => String::from_str("Some(").concat(quoted_text(v.as_str()).as_str()).concat(")"),
                None => String::from_str("None"),
            };
            let x = scope_line(om, am, scope).concat(", metadata ").concat(quoted_text(key).as_str()).concat(": Some(").concat(
                quoted_text(value).as_str(),
            ).concat(") -> ").concat(now.as_str());
            proof {
                reveal_strlit(": Some(");
                reveal_strlit(": ");
                reveal_strlit("Some(");
                reveal_strlit(") -> ");
                reveal_strlit(")");
                reveal_strlit(" -> ");
                assert(": Some("@ =~= ": "@ + "Some("@);
                assert(") -> "@ =~= ")"@ + " -> "@);
            }
            assert(x@ =~= warning_text(*om, *am, *plan, f));
            x
        },
        Finding::TagAdded(scope, k) => {
            let t = actual_tags_of(am, scope).unwrap();
            let entries = t.entries();
            proof {
                assert(t.view_pairs()[k as int] == (entries@[k as int].0@, entries@[k as int].1@));
            }
            let x = scope_line(om, am, scope).concat(", metadata ").concat(quoted_text(entries[k].0.as_str()).as_str()).concat(
                ": added ",
            ).concat(quoted_text(entries[k].1.as_str()).as_str());
            assert(x@ =~= warning_text(*om, *am, *plan, f));
            x
        },
        Finding::Missing(i) => om.streams[i].kind().concat(" stream #").concat(
            decimal_string(om.streams[i].index as u64).as_str(),
        ).concat(": missing from output"),
        Finding::Added(j) => am.streams[j].kind().concat(" stream #").concat(
            decimal_string(am.streams[j].index as u64).as_str(),
        ).concat(": added in output"),
        Finding::AttachmentUnverifiable(scope) => scope_line(om, am, scope).concat(
            ": cannot verify attachment contents; extradata hash unavailable",
        ),
        Finding::LayoutUnknown(scope) => match scope {
            Scope::Stream(i, j) => scope_line(om, am, scope).concat(
                ": cannot verify bit depth/chroma/alpha for pixel formats ",
            ).concat(debug_text_of(&om.streams[i].pix_fmt).as_str()).concat(" -> ").concat(
                debug_text_of(&am.streams[j].pix_fmt).as_str(),
            ),
            _ => scope_line(om, am, scope),
        },
    };
    assert(r@ =~= warning_text(*om, *am, *plan, f));
    r
}

fn scope_fits_check(om: &MediaInfo, am: &MediaInfo, scope: Scope) -> (r: bool)
    ensures
        r == scope_fits(*om, *am, scope),
{
    match scope {
        Scope::Chapter(k) => k < om.chapters.len() && k < am.chapters.len(),
        Scope::Stream(i, j) => i < om.streams.len() && j < am.streams.len(),
        _ => true,
    }
}

/// Whether every position `f` names lies within the probes and their tags, so
/// that `warning` can render it; true of every finding `compare_structure` makes.
pub fn fits(om: &MediaInfo, am: &MediaInfo, plan: &TranscodePlan, f: Finding) -> (r: bool)
    ensures
        r == finding_fits(*om, *am, *plan, f),
{
    match f {
        Finding::Changed(scope, _) => scope_fits_check(om, am, scope),
        Finding::TagChanged(scope, k) => scope_fits_check(om, am, scope) && match expected_tags_of(om, plan, scope) {
            Some(t) => k < t.entries().len(),
            None => false,
        },
        Finding::TagAdded(scope, k) => scope_fits_check(om, am, scope) && match actual_tags_of(am, scope) {
            Some(t) => k < t.entries().len(),
            None => false,
        },
        Finding::Missing(i) => i < om.streams.len(),
        Finding::Added(j) => j < am.streams.len(),
        Finding::AttachmentUnverifiable(scope) => scope_fits_check(om, am, scope),
        Finding::LayoutUnknown(scope) => match scope {
            Scope::Stream(_, _) => scope_fits_check(om, am, scope),
            _ => false,
        },
    }
}

/// The warning for a packet difference between input stream `i` and output stream `j`.
pub open spec fn packet_warning_text(om: MediaInfo, am: MediaInfo, i: usize, j: usize, p: PacketFinding) -> Seq<char> {
    scope_text(om, am, Scope::Stream(i, j)) + match p {
        PacketFinding::Packets { input_packets, output_packets } => ": packet data/packetization differs (input "@
            + decimal(input_packets as nat) + " packets, output "@ + decimal(output_packets as nat) + " packets)"@,
        PacketFinding::Timing => ": packet presentation times/durations differ"@,
    }
}

/// The warning for a packet difference between input stream `i` and output stream `j`.
pub fn packet_warning(om: &MediaInfo, am: &MediaInfo, i: usize, j: usize, p: PacketFinding) -> (r: String)
    requires
        i < om.streams@.len(),
        j < am.streams@.len(),
    ensures
        r@ == packet_warning_text(*om, *am, i, j, p),
{
    let scope = scope_line(om, am, Scope::Stream(i, j));
    let r = match p {
        PacketFinding::Packets { input_packets, output_packets } => scope.concat(
            ": packet data/packetization differs (input ",
        ).concat(decimal_string(input_packets).as_str()).concat(" packets, output ").concat(
            decimal_string(output_packets).as_str(),
        ).concat(" packets)"),
        PacketFinding::Timing => scope.concat(": packet presentation times/durations differ"),
    };
    assert(r@ =~= packet_warning_text(*om, *am, i, j, p));
    r
}


/// Compares the probe of a transcode's output with the probe of its input, as
/// `compare_structure` does, and reports each finding, in order, with its warning.
/// Also returns the pairs of copied streams whose packets must match.
pub fn structure_warnings(original: &MediaInfo, actual: &MediaInfo, copy_video: bool, plan: &TranscodePlan) -> (r: (
    Vec<String>,
    Vec<(usize, usize)>,
))
    ensures
        r.0@.len() == structure_comparison(*original, *actual, copy_video, *plan).0.len(),
        forall|k: int|
            0 <= k < r.0@.len() ==> (#[trigger] r.0@[k])@ == warning_text(
                *original,
                *actual,
                *plan,
                structure_comparison(*original, *actual, copy_video, *plan).0[k],
            ),
        r.1@ == structure_comparison(*original, *actual, copy_video, *plan).1,
{
    let (findings, pairs) = compare_structure(original, actual, copy_video, plan);
    proof {
        vstd::std_specs::vec::axiom_spec_len(&original.streams);
        vstd::std_specs::vec::axiom_spec_len(&actual.streams);
        vstd::std_specs::vec::axiom_spec_len(&original.chapters);
        law_findings_can_be_reported(*original, *actual, copy_video, *plan);
    }
    let mut warnings: Vec<String> = Vec::new();
    let mut k: usize = 0;
    while k < findings.len()
        invariant
            k <= findings@.len(),
            findings@ == structure_comparison(*original, *actual, copy_video, *plan).0,
            forall|x: int| 0 <= x < findings@.len() ==> finding_fits(*original, *actual, *plan, #[trigger] findings@[x]),
            warnings@.len() == k,
            forall|x: int| 0 <= x < k ==> (#[trigger] warnings@[x])@ == warning_text(*original, *actual, *plan, findings@[x]),
        decreases findings@.len() - k,
    {
        let w = warning(original, actual, plan, findings[k]);
        warnings.push(w);
        k += 1;
    }
    (warnings, pairs)
}

} // verus!
