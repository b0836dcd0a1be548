//! Texts of the chart that shows how quality and size change with the quality setting.
use vstd::prelude::*;
use vstd::string::*;
use crate::decoding::DecodingBackend;
use crate::encoding::{
    multipass_text, nvenc_preset_text, preset_text, qsv_preset_text, VideoCodec, VideoEncoding,
};
use crate::text::{decimal, decimal_string};

verus! {

/// How a codec is named in a chart title.
pub open spec fn codec_title(c: VideoCodec) -> Seq<char> {
    match c {
        VideoCodec::H264 => "H.264"@,
        VideoCodec::Hevc => "HEVC"@,
        VideoCodec::Av1 => "AV1"@,
    }
}

/// How an encoder is named in a chart title.
pub open spec fn encoder_title(e: VideoEncoding) -> Seq<char> {
    match e {
        VideoEncoding::X264 { .. } => "x264"@,
        VideoEncoding::X265 { .. } => "x265"@,
        VideoEncoding::SvtAv1 { .. } => "SVT-AV1"@,
        VideoEncoding::AomAv1 { .. } => "AOM-AV1"@,
        VideoEncoding::Rav1e { .. } => "rav1e"@,
        VideoEncoding::Nvenc { codec, .. } => codec_title(codec) + " NVENC"@,
        VideoEncoding::Qsv { codec, .. } => codec_title(codec) + " QSV"@,
        VideoEncoding::Vaapi { codec, .. } => codec_title(codec) + " VAAPI"@,
    }
}

/// How a decoder is named in a chart title.
pub open spec fn decoder_title(d: DecodingBackend) -> Seq<char> {
    match d {
        DecodingBackend::Software => "Software"@,
        DecodingBackend::Vaapi(_) => "VAAPI decode"@,
        DecodingBackend::Cuda(_) => "CUDA decode"@,
        DecodingBackend::Qsv(_) => "QSV decode"@,
    }
}

/// The speed settings an encoding names in a chart title, in order.
pub open spec fn knob_titles(e: VideoEncoding) -> Seq<Seq<char>> {
    match e {
        VideoEncoding::X264 { preset: Some(p), .. } => seq!["Preset "@ + preset_text(p)],
        VideoEncoding::X265 { preset: Some(p), .. } => seq!["Preset "@ + preset_text(p)],
        VideoEncoding::SvtAv1 { preset: Some(p), .. } => seq!["Preset "@ + decimal(p as nat)],
        VideoEncoding::AomAv1 { cpu_used: Some(c), .. } => seq!["CPU Used "@ + decimal(c as nat)],
        VideoEncoding::Rav1e { speed: Some(s), .. } => seq!["Speed "@ + decimal(s as nat)],
        VideoEncoding::Nvenc { preset, multipass, .. } => (match preset {
            Some(p) => seq!["Preset "@ + nvenc_preset_text(p)],
            None => Seq::<Seq<char>>::empty(),
        }) + (match multipass {
            Some(m) => seq!["Multipass "@ + multipass_text(m)],
            None => Seq::<Seq<char>>::empty(),
        }),
        VideoEncoding::Qsv { preset: Some(p), .. } => seq!["Preset "@ + qsv_preset_text(p)],
        _ => Seq::<Seq<char>>::empty(),
    }
}

/// `parts` joined with ` / `.
pub open spec fn joined_title(parts: Seq<Seq<char>>) -> Seq<char>
    decreases parts.len(),
{
    if parts.len() == 0 {
        Seq::<char>::empty()
    } else if parts.len() == 1 {
        parts[0]
    } else {
        joined_title(parts.drop_last()) + " / "@ + parts.last()
    }
}

/// The chart title: encoder, decoder, then the encoder's speed settings.
pub open spec fn chart_title_text(e: VideoEncoding, d: DecodingBackend) -> Seq<char> {
    joined_title(seq![encoder_title(e), decoder_title(d)] + knob_titles(e))
}

fn codec_name(codec: VideoCodec) -> (r: &'static str)
    ensures
        r@ == codec_title(codec),
{
    match codec {
        VideoCodec::H264 => "H.264",
        VideoCodec::Hevc => "HEVC",
        VideoCodec::Av1 => "AV1",
    }
}

/// The chart title of an emulation with `encoding` and `decoding`.
pub fn chart_title(encoding: &VideoEncoding, decoding: &DecodingBackend) -> (r: String)
    ensures
        r@ == chart_title_text(*encoding, *decoding),
{
    let encoder = match encoding {
        VideoEncoding::X264 { .. } => String::from_str("x264"),
        VideoEncoding::X265 { .. } => String::from_str("x265"),
        VideoEncoding::SvtAv1 { .. } => String::from_str("SVT-AV1"),
        VideoEncoding::AomAv1 { .. } => String::from_str("AOM-AV1"),
        VideoEncoding::Rav1e { .. } => String::from_str("rav1e"),
        VideoEncoding::Nvenc { codec, .. } => String::from_str(codec_name(*codec)).concat(" NVENC"),
        VideoEncoding::Qsv { codec, .. } => String::from_str(codec_name(*codec)).concat(" QSV"),
        VideoEncoding::Vaapi { codec, .. } => String::from_str(codec_name(*codec)).concat(" VAAPI"),
    };
    let decoder = match decoding {
        DecodingBackend::Software => "Software",
        DecodingBackend::Vaapi(_) => "VAAPI decode",
        DecodingBackend::Cuda(_) => "CUDA decode",
        DecodingBackend::Qsv(_) => "QSV decode",
    };
    let mut parts: Vec<String> = Vec::new();
    parts.push(encoder);
    parts.push(String::from_str(decoder));
    match encoding {
        VideoEncoding::X264 { preset: Some(p), .. } | VideoEncoding::X265 { preset: Some(p), .. } => {
            parts.push(String::from_str("Preset ").concat(p.as_str()));
        },
        VideoEncoding::SvtAv1 { preset: Some(p), .. } => {
            parts.push(String::from_str("Preset ").concat(decimal_string(*p as u64).as_str()));
        },
        VideoEncoding::AomAv1 { cpu_used: Some(c), .. } => {
            parts.push(String::from_str("CPU Used ").concat(decimal_string(*c as u64).as_str()));
        },
        VideoEncoding::Rav1e { speed: Some(s), .. } => {
            parts.push(String::from_str("Speed ").concat(decimal_string(*s as u64).as_str()));
        },
        VideoEncoding::Nvenc { preset, multipass, .. } => {
            match preset {
                Some(p) => parts.push(String::from_str("Preset ").concat(p.as_str())),
                None => {},
            }
            match multipass {
                Some(m) => parts.push(String::from_str("Multipass ").concat(m.as_str())),
                None => {},
            }
        },
        VideoEncoding::Qsv { preset: Some(p), .. } => {
            parts.push(String::from_str("Preset ").concat(p.as_str()));
        },
        _ => {},
    }
    let ghost all = seq![encoder_title(*encoding), decoder_title(*decoding)] + knob_titles(*encoding);
    assert(parts@.map_values(|s: String| s@) =~= all);
    let mut out = parts[0].clone();
    let mut i: usize = 1;
    assert(all.take(1).drop_last() =~= Seq::<Seq<char>>::empty());
    while i < parts.len()
        invariant
            1 <= i <= parts@.len(),
            parts@.map_values(|s: String| s@) == all,
            out@ == joined_title(all.take(i as int)),
        decreases parts@.len() - i,
    {
        proof {
            assert(all.take(i + 1).drop_last() =~= all.take(i as int));
            assert(all.take(i + 1).last() == parts@[i as int]@);
        }
        out = out.concat(" / ").concat(parts[i].as_str());
        i += 1;
    }
    assert(all.take(parts@.len() as int) =~= all);
    out
}

} // verus!
