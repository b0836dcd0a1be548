//! Reading what `ffmpeg -h encoder=NAME` reports about an encoder.
use vstd::prelude::*;
use vstd::string::*;
use crate::text::{
    chars_of, lines, lines_of, strip_prefix, strip_prefix_chars, string_of, trim, trim_chars,
    views, words, words_of,
};

verus! {

/// What the help of one encoder reports.
#[derive(Debug)]
pub struct EncoderHelp {
    pub name: String,
    /// `None` when the help lists no pixel formats.
    pub pixel_formats: Option<Vec<String>>,
}

/// The encoder named by a heading line `Encoder NAME ...`.
pub open spec fn heading_name(l: Seq<char>) -> Option<Seq<char>> {
    match strip_prefix(l, "Encoder "@) {
        Some(rest) => if words(rest).len() > 0 {
            Some(words(rest)[0])
        } else {
            None
        },
        None => None,
    }
}

/// The formats listed by a line `Supported pixel formats: A B ...`.
pub open spec fn listed_formats(l: Seq<char>) -> Option<Seq<Seq<char>>> {
    match strip_prefix(trim(l), "Supported pixel formats:"@) {
        Some(rest) => Some(words(rest)),
        None => None,
    }
}

/// The name of the first heading among `ls`.
pub open spec fn first_heading(ls: Seq<Seq<char>>) -> Option<Seq<char>>
    decreases ls.len(),
{
    if ls.len() == 0 {
        None
    } else if heading_name(ls[0]) is Some {
        heading_name(ls[0])
    } else {
        first_heading(ls.drop_first())
    }
}

/// The formats of the first format line among `ls`.
pub open spec fn first_formats(ls: Seq<Seq<char>>) -> Option<Seq<Seq<char>>>
    decreases ls.len(),
{
    if ls.len() == 0 {
        None
    } else if listed_formats(ls[0]) is Some {
        listed_formats(ls[0])
    } else {
        first_formats(ls.drop_first())
    }
}

/// The views of a list of strings.
pub open spec fn string_list(v: Seq<String>) -> Seq<Seq<char>> {
    v.map_values(|s: String| s@)
}

/// The message for help text without an encoder heading.
pub open spec fn missing_heading_message() -> Seq<char> {
    "FFmpeg encoder help has no encoder heading"@
}

fn to_strings(v: &Vec<Vec<char>>) -> (r: Vec<String>)
    ensures
        string_list(r@) == views(v@),
{
    let mut r: Vec<String> = Vec::new();
    let mut i: usize = 0;
    while i < v.len()
        invariant
            i <= v@.len(),
            string_list(r@) =~= views(v@).take(i as int),
        decreases v@.len() - i,
    {
        let ghost before = string_list(r@);
        r.push(string_of(v[i].as_slice()));
        assert(string_list(r@) =~= before.push(v@[i as int]@));
        i += 1;
    }
    assert(views(v@).take(v@.len() as int) =~= views(v@));
    r
}

/// Reads the encoder name and, when listed, its pixel formats from help text.
pub fn parse_encoder_help(text: &str) -> (r: Result<EncoderHelp, String>)
    ensures
        match first_heading(lines(text@)) {
            None => r matches Err(m) && m@ == missing_heading_message(),
            Some(n) => r matches Ok(h) && h.name@ == n && match first_formats(lines(text@)) {
                Some(f) => h.pixel_formats matches Some(p) && string_list(p@) == f,
                None => h.pixel_formats is None,
            },
        },
{
    let chars = chars_of(text);
    let ls = lines_of(chars.as_slice());
    let ghost all = views(ls@);
    let mut name: Option<String> = None;
    let mut i: usize = 0;
    assert(all.skip(0) =~= all);
    while i < ls.len()
        invariant_except_break
            name is None,
        invariant
            all == views(ls@),
            all == lines(text@),
            i <= all.len(),
            first_heading(all) == first_heading(all.skip(i as int)),
        ensures
            name matches Some(n) ==> first_heading(all) == Some(n@),
            name is None ==> first_heading(all) is None,
        decreases all.len() - i,
    {
        proof {
            assert(all.skip(i as int)[0] == ls@[i as int]@);
            assert(all.skip(i as int).drop_first() =~= all.skip(i + 1));
        }
        match strip_prefix_chars(ls[i].as_slice(), "Encoder ") {
            Some(rest) => {
                let ws = words_of(rest.as_slice());
                if ws.len() > 0 {
                    name = Some(string_of(ws[0].as_slice()));
                    assert(views(ws@)[0] == ws@[0]@);
                    assert(heading_name(all[i as int]) == Some(ws@[0]@));
                    break;
                }
            },
            None => {},
        }
        i += 1;
    }
    let name = match name {
        Some(n) => n,
        None => {
            return Err(String::from_str("FFmpeg encoder help has no encoder heading"));
        },
    };
    let mut formats: Option<Vec<String>> = None;
    let mut j: usize = 0;
    assert(all.skip(0) =~= all);
    while j < ls.len()
        invariant_except_break
            formats is None,
        invariant
            all == views(ls@),
            j <= all.len(),
            first_formats(all) == first_formats(all.skip(j as int)),
        ensures
            formats matches Some(f) ==> first_formats(all) == Some(string_list(f@)),
            formats is None ==> first_formats(all) is None,
        decreases all.len() - j,
    {
        proof {
            assert(all.skip(j as int)[0] == ls@[j as int]@);
            assert(all.skip(j as int).drop_first() =~= all.skip(j + 1));
        }
        let t = trim_chars(ls[j].as_slice());
        match strip_prefix_chars(t.as_slice(), "Supported pixel formats:") {
            Some(rest) => {
                let ws = words_of(rest.as_slice());
                formats = Some(to_strings(&ws));
                break;
            },
            None => {},
        }
        j += 1;
    }
    Ok(EncoderHelp { name, pixel_formats: formats })
}

} // verus!
