//! The choices the workspace forms offer: containers, decoders, encoders and their presets.
use vstd::prelude::*;
use vstd::string::*;
use crate::decoding::{device_view, DecodingBackend};
use crate::encoding::{preset_update, same_but_device, NvencMultipass, VideoCodec, VideoEncoding};
use crate::plan::Container;
use crate::text::{chars_of, str_eq, string_of, trim, trim_chars};

verus! {

/// The container offered under a form label; `Auto` keeps the input's own.
pub open spec fn container_of_label(label: Seq<char>) -> Option<Option<Container>> {
    if label == "Auto"@ {
        Some(None)
    } else if label == "Matroska"@ {
        Some(Some(Container::Matroska))
    } else if label == "MP4"@ {
        Some(Some(Container::Mp4))
    } else if label == "MOV"@ {
        Some(Some(Container::Mov))
    } else if label == "M4A"@ {
        Some(Some(Container::M4a))
    } else if label == "3GP"@ {
        Some(Some(Container::ThreeGp))
    } else if label == "3G2"@ {
        Some(Some(Container::ThreeG2))
    } else if label == "F4V"@ {
        Some(Some(Container::F4v))
    } else if label == "ISMV"@ {
        Some(Some(Container::Ismv))
    } else if label == "PSP"@ {
        Some(Some(Container::Psp))
    } else if label == "WebM"@ {
        Some(Some(Container::Webm))
    } else if label == "MPEG-TS"@ {
        Some(Some(Container::MpegTs))
    } else if label == "M2TS"@ {
        Some(Some(Container::M2ts))
    } else if label == "AVI"@ {
        Some(Some(Container::Avi))
    } else if label == "FLV"@ {
        Some(Some(Container::Flv))
    } else if label == "ASF"@ {
        Some(Some(Container::Asf))
    } else if label == "WMV"@ {
        Some(Some(Container::Wmv))
    } else if label == "MPEG-PS"@ {
        Some(Some(Container::MpegPs))
    } else if label == "VOB"@ {
        Some(Some(Container::Vob))
    } else if label == "Ogg"@ {
        Some(Some(Container::Ogg))
    } else if label == "OGV"@ {
        Some(Some(Container::Ogv))
    } else {
        None
    }
}

/// The container chosen under one of the form's labels.
pub fn container(label: &str) -> (r: Option<Container>)
    requires
        container_of_label(label@) is Some,
    ensures
        container_of_label(label@) == Some(r),
{
    if str_eq(label, "Auto") {
        None
    } else if str_eq(label, "Matroska") {
        Some(Container::Matroska)
    } else if str_eq(label, "MP4") {
        Some(Container::Mp4)
    } else if str_eq(label, "MOV") {
        Some(Container::Mov)
    } else if str_eq(label, "M4A") {
        Some(Container::M4a)
    } else if str_eq(label, "3GP") {
        Some(Container::ThreeGp)
    } else if str_eq(label, "3G2") {
        Some(Container::ThreeG2)
    } else if str_eq(label, "F4V") {
        Some(Container::F4v)
    } else if str_eq(label, "ISMV") {
        Some(Container::Ismv)
    } else if str_eq(label, "PSP") {
        Some(Container::Psp)
    } else if str_eq(label, "WebM") {
        Some(Container::Webm)
    } else if str_eq(label, "MPEG-TS") {
        Some(Container::MpegTs)
    } else if str_eq(label, "M2TS") {
        Some(Container::M2ts)
    } else if str_eq(label, "AVI") {
        Some(Container::Avi)
    } else if str_eq(label, "FLV") {
        Some(Container::Flv)
    } else if str_eq(label, "ASF") {
        Some(Container::Asf)
    } else if str_eq(label, "WMV") {
        Some(Container::Wmv)
    } else if str_eq(label, "MPEG-PS") {
        Some(Container::MpegPs)
    } else if str_eq(label, "VOB") {
        Some(Container::Vob)
    } else if str_eq(label, "Ogg") {
        Some(Container::Ogg)
    } else {
        Some(Container::Ogv)
    }
}

/// Whether `label` is one of the decoders the form offers.
pub open spec fn known_decoder(label: Seq<char>) -> bool {
    label == "Software"@ || label == "VAAPI"@ || label == "CUDA"@ || label == "QSV"@
}

/// The device typed into the form: trimmed, none when blank.
pub open spec fn typed_device(device: Seq<char>) -> Option<Seq<char>> {
    if trim(device).len() == 0 {
        None
    } else {
        Some(trim(device))
    }
}

/// Whether `r` is the decoder chosen under `label` with `device` typed.
pub open spec fn decoding_choice(label: Seq<char>, device: Seq<char>, r: DecodingBackend) -> bool {
    &&& label == "Software"@ ==> r is Software
    &&& label == "VAAPI"@ ==> (r matches DecodingBackend::Vaapi(d) && device_view(d) == typed_device(device))
    &&& label == "CUDA"@ ==> (r matches DecodingBackend::Cuda(d) && device_view(d) == typed_device(device))
    &&& label == "QSV"@ ==> (r matches DecodingBackend::Qsv(d) && device_view(d) == typed_device(device))
}

/// The decoder chosen under a form label, with the typed device.
pub fn decoding(label: &str, device: &str) -> (r: DecodingBackend)
    requires
        known_decoder(label@),
    ensures
        decoding_choice(label@, device@, r),
{
    proof {
        reveal_strlit("Software");
        reveal_strlit("VAAPI");
        reveal_strlit("CUDA");
        reveal_strlit("QSV");
        assert("Software"@.len() == 8 && "VAAPI"@.len() == 5 && "CUDA"@.len() == 4 && "QSV"@.len() == 3);
    }
    let chars = chars_of(device);
    let trimmed = trim_chars(chars.as_slice());
    let typed = if trimmed.len() == 0 {
        None
    } else {
        Some(string_of(trimmed.as_slice()))
    };
    if str_eq(label, "Software") {
        DecodingBackend::Software
    } else if str_eq(label, "VAAPI") {
        DecodingBackend::Vaapi(typed)
    } else if str_eq(label, "CUDA") {
        DecodingBackend::Cuda(typed)
    } else {
        DecodingBackend::Qsv(typed)
    }
}

/// The presets the form offers for an encoder, in order; none for VAAPI.
pub open spec fn preset_labels(encoder: Seq<char>) -> Option<Seq<Seq<char>>> {
    if encoder == "libx264"@ || encoder == "libx265"@ {
        Some(seq!["ultrafast"@, "superfast"@, "veryfast"@, "faster"@, "fast"@, "medium"@, "slow"@, "slower"@, "veryslow"@])
    } else if encoder == "libsvtav1"@ {
        Some(seq!["0"@, "1"@, "2"@, "3"@, "4"@, "5"@, "6"@, "7"@, "8"@, "9"@, "10"@, "11"@, "12"@, "13"@])
    } else if encoder == "libaom-av1"@ {
        Some(seq!["0"@, "1"@, "2"@, "3"@, "4"@, "5"@, "6"@, "7"@, "8"@])
    } else if encoder == "librav1e"@ {
        Some(seq!["0"@, "1"@, "2"@, "3"@, "4"@, "5"@, "6"@, "7"@, "8"@, "9"@, "10"@])
    } else if encoder == "h264_nvenc"@ || encoder == "hevc_nvenc"@ || encoder == "av1_nvenc"@ {
        Some(seq!["p1"@, "p2"@, "p3"@, "p4"@, "p5"@, "p6"@, "p7"@])
    } else if encoder == "h264_qsv"@ || encoder == "hevc_qsv"@ || encoder == "av1_qsv"@ {
        Some(seq!["veryfast"@, "faster"@, "fast"@, "medium"@, "slow"@, "slower"@, "veryslow"@])
    } else if encoder == "h264_vaapi"@ || encoder == "hevc_vaapi"@ || encoder == "av1_vaapi"@ {
        Some(Seq::<Seq<char>>::empty())
    } else {
        None
    }
}

fn labels(v: &[&'static str]) -> (r: Vec<&'static str>)
    ensures
        r@.map_values(|s: &str| s@) == v@.map_values(|s: &str| s@),
{
    let mut r: Vec<&'static str> = Vec::new();
    let mut i: usize = 0;
    while i < v.len()
        invariant
            i <= v@.len(),
            r@.map_values(|s: &str| s@) =~= v@.take(i as int).map_values(|s: &str| s@),
        decreases v@.len() - i,
    {
        r.push(v[i]);
        assert(v@.take(i + 1) =~= v@.take(i as int).push(v@[i as int]));
        assert(v@.take(i + 1).map_values(|s: &str| s@) =~= v@.take(i as int).map_values(|s: &str| s@).push(v@[i as int]@));
        i += 1;
    }
    assert(v@.take(v@.len() as int) =~= v@);
    r
}

/// The presets the form offers for one of its encoders.
pub fn presets(encoder: &str) -> (r: Vec<&'static str>)
    requires
        preset_labels(encoder@) is Some,
    ensures
        preset_labels(encoder@) == Some(r@.map_values(|s: &str| s@)),
{
    let x26x = str_eq(encoder, "libx264") || str_eq(encoder, "libx265");
    let nvenc = str_eq(encoder, "h264_nvenc") || str_eq(encoder, "hevc_nvenc") || str_eq(encoder, "av1_nvenc");
    let qsv = str_eq(encoder, "h264_qsv") || str_eq(encoder, "hevc_qsv") || str_eq(encoder, "av1_qsv");
    let r = if x26x {
        labels(&["ultrafast", "superfast", "veryfast", "faster", "fast", "medium", "slow", "slower", "veryslow"])
    } else if str_eq(encoder, "libsvtav1") {
        labels(&["0", "1", "2", "3", "4", "5", "6", "7", "8", "9", "10", "11", "12", "13"])
    } else if str_eq(encoder, "libaom-av1") {
        labels(&["0", "1", "2", "3", "4", "5", "6", "7", "8"])
    } else if str_eq(encoder, "librav1e") {
        labels(&["0", "1", "2", "3", "4", "5", "6", "7", "8", "9", "10"])
    } else if nvenc {
        labels(&["p1", "p2", "p3", "p4", "p5", "p6", "p7"])
    } else if qsv {
        labels(&["veryfast", "faster", "fast", "medium", "slow", "slower", "veryslow"])
    } else {
        Vec::new()
    };
    assert(r@.map_values(|s: &str| s@) =~= preset_labels(encoder@).unwrap());
    r
}

/// The position of the preset the form selects first for an encoder.
pub open spec fn default_preset_index(encoder: Seq<char>) -> usize {
    if encoder == "libx264"@ || encoder == "libx265"@ {
        5
    } else if encoder == "libsvtav1"@ {
        6
    } else if encoder == "libaom-av1"@ {
        4
    } else if encoder == "librav1e"@ {
        6
    } else {
        3
    }
}

/// The position of the preset the form selects first for an encoder.
pub fn default_preset(encoder: &str) -> (r: usize)
    ensures
        r == default_preset_index(encoder@),
{
    if str_eq(encoder, "libx264") || str_eq(encoder, "libx265") {
        5
    } else if str_eq(encoder, "libsvtav1") {
        6
    } else if str_eq(encoder, "libaom-av1") {
        4
    } else if str_eq(encoder, "librav1e") {
        6
    } else {
        3
    }
}

/// The multipass mode offered under a form label; `Default` leaves it to the encoder.
pub open spec fn multipass_choice(label: Seq<char>) -> Option<Option<NvencMultipass>> {
    if label == "Default"@ {
        Some(None)
    } else if label == "Disabled"@ {
        Some(Some(NvencMultipass::Disabled))
    } else if label == "Quarter resolution"@ {
        Some(Some(NvencMultipass::QuarterResolution))
    } else if label == "Full resolution"@ {
        Some(Some(NvencMultipass::FullResolution))
    } else {
        None
    }
}

/// The encoder a form label names, with nothing set yet; `None` for the VAAPI
/// encoders, whose device comes from the form, and for labels the form does not offer.
pub open spec fn fresh_encoding(name: Seq<char>) -> Option<VideoEncoding> {
    if name == "libx264"@ {
        Some(VideoEncoding::X264 { rate: None, preset: None })
    } else if name == "libx265"@ {
        Some(VideoEncoding::X265 { rate: None, preset: None })
    } else if name == "libsvtav1"@ {
        Some(VideoEncoding::SvtAv1 { rate: None, preset: None })
    } else if name == "libaom-av1"@ {
        Some(VideoEncoding::AomAv1 { rate: None, cpu_used: None })
    } else if name == "librav1e"@ {
        Some(VideoEncoding::Rav1e { rate: None, speed: None })
    } else if name == "h264_nvenc"@ {
        Some(VideoEncoding::Nvenc { codec: VideoCodec::H264, rate: None, preset: None, multipass: None })
    } else if name == "hevc_nvenc"@ {
        Some(VideoEncoding::Nvenc { codec: VideoCodec::Hevc, rate: None, preset: None, multipass: None })
    } else if name == "av1_nvenc"@ {
        Some(VideoEncoding::Nvenc { codec: VideoCodec::Av1, rate: None, preset: None, multipass: None })
    } else if name == "h264_qsv"@ {
        Some(VideoEncoding::Qsv { codec: VideoCodec::H264, rate: None, preset: None })
    } else if name == "hevc_qsv"@ {
        Some(VideoEncoding::Qsv { codec: VideoCodec::Hevc, rate: None, preset: None })
    } else if name == "av1_qsv"@ {
        Some(VideoEncoding::Qsv { codec: VideoCodec::Av1, rate: None, preset: None })
    } else {
        None
    }
}

/// `e` with its NVENC multipass mode replaced; other encoders have none.
pub open spec fn with_multipass(e: VideoEncoding, m: Option<NvencMultipass>) -> VideoEncoding {
    match e {
        VideoEncoding::Nvenc { codec, rate, preset, .. } => VideoEncoding::Nvenc {
            codec,
            rate,
            preset,
            multipass: m,
        },
        _ => e,
    }
}

/// Whether `e` is an NVENC encoding, the only kind with a multipass mode.
pub open spec fn is_nvenc(e: VideoEncoding) -> bool {
    e is Nvenc
}

/// The codec of a VAAPI encoder the form offers.
pub open spec fn vaapi_codec(name: Seq<char>) -> VideoCodec {
    if name == "h264_vaapi"@ {
        VideoCodec::H264
    } else if name == "hevc_vaapi"@ {
        VideoCodec::Hevc
    } else {
        VideoCodec::Av1
    }
}

/// The encoding the form's encoder, preset and multipass fields select; for a
/// VAAPI encoder the device is left open.
pub open spec fn form_video(name: Seq<char>, preset: Seq<char>, multipass: Seq<char>) -> VideoEncoding {
    match fresh_encoding(name) {
        Some(e) => with_multipass(preset_update(e, preset)->Ok_0, multipass_choice(multipass)->0),
        None => VideoEncoding::Vaapi { codec: vaapi_codec(name), rate: None, device: arbitrary() },
    }
}

/// Whether the form's encoder, preset and multipass fields hold choices it offers.
pub open spec fn encoding_ready(name: Seq<char>, preset: Seq<char>, multipass: Seq<char>) -> bool {
    &&& preset_labels(name) is Some
    &&& match fresh_encoding(name) {
        Some(e) => preset_update(e, preset) is Ok && (is_nvenc(e) ==> multipass_choice(multipass) is Some),
        None => true,
    }
}

/// Whether `r` is the encoding the form's encoder fields select, with `device` typed
/// for a VAAPI encoder.
pub open spec fn encoding_choice(
    name: Seq<char>,
    preset: Seq<char>,
    multipass: Seq<char>,
    device: Seq<char>,
    r: VideoEncoding,
) -> bool {
    &&& same_but_device(r, form_video(name, preset, multipass))
    &&& r matches VideoEncoding::Vaapi { device: d, .. } ==> d@ == trim(device)
}

/// The encoding the form's encoder, preset, multipass and device fields select.
pub fn encoding(name: &str, preset: &str, multipass: &str, device: &str) -> (r: VideoEncoding)
    requires
        encoding_ready(name@, preset@, multipass@),
    ensures
        encoding_choice(name@, preset@, multipass@, device@, r),
{
    proof {
        reveal_strlit("libx264");
        reveal_strlit("libx265");
        reveal_strlit("libsvtav1");
        reveal_strlit("libaom-av1");
        reveal_strlit("librav1e");
        reveal_strlit("h264_nvenc");
        reveal_strlit("hevc_nvenc");
        reveal_strlit("av1_nvenc");
        reveal_strlit("h264_qsv");
        reveal_strlit("hevc_qsv");
        reveal_strlit("av1_qsv");
        reveal_strlit("h264_vaapi");
        reveal_strlit("hevc_vaapi");
        reveal_strlit("av1_vaapi");
        reveal_strlit("h264");
        reveal_strlit("hevc");
        reveal_strlit("av1");
        reveal_strlit("_vaapi");
    }
    let trimmed = trim_chars(chars_of(device).as_slice());
    let mut e = if str_eq(name, "libx264") {
        VideoEncoding::X264 { rate: None, preset: None }
    } else if str_eq(name, "libx265") {
        VideoEncoding::X265 { rate: None, preset: None }
    } else if str_eq(name, "libsvtav1") {
        VideoEncoding::SvtAv1 { rate: None, preset: None }
    } else if str_eq(name, "libaom-av1") {
        VideoEncoding::AomAv1 { rate: None, cpu_used: None }
    } else if str_eq(name, "librav1e") {
        VideoEncoding::Rav1e { rate: None, speed: None }
    } else if str_eq(name, "h264_nvenc") {
        VideoEncoding::Nvenc { codec: VideoCodec::H264, rate: None, preset: None, multipass: None }
    } else if str_eq(name, "hevc_nvenc") {
        VideoEncoding::Nvenc { codec: VideoCodec::Hevc, rate: None, preset: None, multipass: None }
    } else if str_eq(name, "av1_nvenc") {
        VideoEncoding::Nvenc { codec: VideoCodec::Av1, rate: None, preset: None, multipass: None }
    } else if str_eq(name, "h264_qsv") {
        VideoEncoding::Qsv { codec: VideoCodec::H264, rate: None, preset: None }
    } else if str_eq(name, "hevc_qsv") {
        VideoEncoding::Qsv { codec: VideoCodec::Hevc, rate: None, preset: None }
    } else if str_eq(name, "av1_qsv") {
        VideoEncoding::Qsv { codec: VideoCodec::Av1, rate: None, preset: None }
    } else if str_eq(name, "h264_vaapi") {
        return VideoEncoding::Vaapi {
            codec: VideoCodec::H264,
            rate: None,
            device: string_of(trimmed.as_slice()),
        };
    } else if str_eq(name, "hevc_vaapi") {
        return VideoEncoding::Vaapi {
            codec: VideoCodec::Hevc,
            rate: None,
            device: string_of(trimmed.as_slice()),
        };
    } else {
        return VideoEncoding::Vaapi {
            codec: VideoCodec::Av1,
            rate: None,
            device: string_of(trimmed.as_slice()),
        };
    };
    let _ = e.try_set_preset(preset);
    if let VideoEncoding::Nvenc { codec, rate, preset: p, .. } = e {
        let m = if str_eq(multipass, "Default") {
            None
        } else if str_eq(multipass, "Disabled") {
            Some(NvencMultipass::Disabled)
        } else if str_eq(multipass, "Quarter resolution") {
            Some(NvencMultipass::QuarterResolution)
        } else {
            Some(NvencMultipass::FullResolution)
        };
        e = VideoEncoding::Nvenc { codec, rate, preset: p, multipass: m };
    }
    e
}

} // verus!
