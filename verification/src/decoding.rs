//! Where frames are decoded, and the FFmpeg options that move them to the encoder.
use vstd::prelude::*;
use vstd::string::*;
use crate::args::{add_arg, indexed, string_views, Arg};
use crate::encoding::{message, VideoEncoding};
use crate::media::{samples_of, Chroma, PixelFormat, VideoSamples};
use crate::pixel_format::{surface_target, three_of, vaapi_qsv_format};
use crate::text::{
    chars_eq_str, chars_of, lemma_split_once_join, split_once, split_once_chars, str_eq,
    string_of,
};

verus! {

/// Where video frames are decoded, with an optional device.
#[derive(Debug, Clone)]
pub enum DecodingBackend {
    Software,
    Vaapi(Option<String>),
    Cuda(Option<String>),
    Qsv(Option<String>),
}

/// The options a decoder adds before the input and after it for one stream.
pub struct FramePlan {
    pub input_args: Vec<String>,
    pub output_args: Vec<String>,
}

/// The view of an optional string.
pub open spec fn device_view(o: Option<String>) -> Option<Seq<char>> {
    match o {
        Some(s) => Some(s@),
        None => None,
    }
}

/// The `-hwaccel` method of a backend.
pub open spec fn hw_method(d: DecodingBackend) -> Seq<char> {
    match d {
        DecodingBackend::Software => "none"@,
        DecodingBackend::Vaapi(_) => "vaapi"@,
        DecodingBackend::Cuda(_) => "cuda"@,
        DecodingBackend::Qsv(_) => "qsv"@,
    }
}

/// The device a backend decodes on: its own, or for VAAPI without one, the
/// VAAPI encoder's device.
pub open spec fn hw_device(d: DecodingBackend, e: VideoEncoding) -> Option<Seq<char>> {
    match (d, e) {
        (DecodingBackend::Vaapi(None), VideoEncoding::Vaapi { device, .. }) => Some(device@),
        (DecodingBackend::Software, _) => None,
        (DecodingBackend::Vaapi(x), _) => device_view(x),
        (DecodingBackend::Cuda(x), _) => device_view(x),
        (DecodingBackend::Qsv(x), _) => device_view(x),
    }
}

/// The surface format handed straight from decoder to encoder when both use the
/// same hardware (and, for VAAPI, the same device).
pub open spec fn direct_target(d: DecodingBackend, e: VideoEncoding) -> Option<Seq<char>> {
    match (d, e) {
        (DecodingBackend::Vaapi(x), VideoEncoding::Vaapi { device, .. }) => match x {
            None => Some("vaapi"@),
            Some(dev) => if dev@ == device@ {
                Some("vaapi"@)
            } else {
                None
            },
        },
        (DecodingBackend::Cuda(_), VideoEncoding::Nvenc { .. }) => Some("cuda"@),
        (DecodingBackend::Qsv(_), VideoEncoding::Qsv { .. }) => Some("qsv"@),
        _ => None,
    }
}

/// The format CUDA frames are downloaded in for a YUV layout.
pub open spec fn cuda_format(w: u8, h: u8, d: Seq<u8>) -> Option<Seq<char>> {
    if d == seq![8u8, 8u8, 8u8] {
        if w == 1 && h == 1 {
            Some("nv12"@)
        } else if w == 1 && h == 0 {
            Some("nv16"@)
        } else if w == 0 && h == 0 {
            Some("yuv444p"@)
        } else {
            None
        }
    } else if d == seq![10u8, 10u8, 10u8] {
        if w == 1 && h == 1 {
            Some("p010le"@)
        } else if w == 1 && h == 0 {
            Some("p210le"@)
        } else if w == 0 && h == 0 {
            Some("yuv444p10msble"@)
        } else {
            None
        }
    } else if d == seq![12u8, 12u8, 12u8] {
        if w == 1 && h == 1 {
            Some("p012le"@)
        } else if w == 1 && h == 0 {
            Some("p212le"@)
        } else if w == 0 && h == 0 {
            Some("yuv444p12msble"@)
        } else {
            None
        }
    } else {
        None
    }
}

/// The format hardware frames of `source` are downloaded in.
pub open spec fn download_target(d: DecodingBackend, source: PixelFormat) -> Seq<char> {
    match d {
        DecodingBackend::Cuda(_) => match samples_of(source) {
            Some((dp, Chroma::Yuv { log2_width, log2_height }, false)) => match cuda_format(
                log2_width,
                log2_height,
                dp,
            ) {
                Some(n) => n,
                None => source.name@,
            },
            _ => source.name@,
        },
        DecodingBackend::Software => source.name@,
        _ => surface_target(source),
    }
}

/// The filters that bring frames of `source` to `target` and onto the encoder.
pub open spec fn frame_filters(
    d: DecodingBackend,
    e: VideoEncoding,
    source: PixelFormat,
    target: Seq<char>,
) -> Seq<Seq<char>> {
    let software = d is Software;
    let memory = if software {
        source.name@
    } else {
        download_target(d, source)
    };
    let download = if software {
        seq![]
    } else {
        seq!["hwdownload,format="@ + memory]
    };
    let convert = if memory == target {
        seq![]
    } else if software {
        seq!["format="@ + memory, "scale=iw:ih,format="@ + target]
    } else {
        seq!["scale=iw:ih,format="@ + target]
    };
    let upload = if e is Vaapi {
        seq!["hwupload"@]
    } else {
        seq![]
    };
    download + convert + upload
}

/// `filters` joined by commas.
pub open spec fn join_filters(filters: Seq<Seq<char>>) -> Seq<char>
    decreases filters.len(),
{
    if filters.len() == 0 {
        seq![]
    } else if filters.len() == 1 {
        filters[0]
    } else {
        join_filters(filters.drop_last()) + ","@ + filters.last()
    }
}

/// The options placed before the input for stream `input_index`.
pub open spec fn frame_input_args(d: DecodingBackend, e: VideoEncoding, input_index: usize) -> Seq<
    Seq<char>,
> {
    let m = hw_method(d);
    seq![indexed("-hwaccel:"@, input_index as nat), m] + match hw_device(d, e) {
        Some(dev) => seq![indexed("-hwaccel_device:"@, input_index as nat), dev],
        None => seq![],
    } + if d is Software {
        seq![]
    } else {
        seq![indexed("-hwaccel_output_format:"@, input_index as nat), m]
    }
}

/// The options placed after the input for output stream `output_index`.
pub open spec fn frame_output_args(
    d: DecodingBackend,
    e: VideoEncoding,
    source: PixelFormat,
    output_index: usize,
    target: Seq<char>,
) -> Seq<Seq<char>> {
    match direct_target(d, e) {
        Some(f) => seq![indexed("-pix_fmt:"@, output_index as nat), "+"@ + f],
        None => {
            let filters = frame_filters(d, e, source, target);
            let out = if e is Vaapi {
                "vaapi"@
            } else {
                target
            };
            (if filters.len() == 0 {
                seq![]
            } else {
                seq![indexed("-filter:"@, output_index as nat), join_filters(filters)]
            }) + seq![indexed("-pix_fmt:"@, output_index as nat), "+"@ + out]
        },
    }
}

/// How a backend is written: `software`, or its name and `:DEVICE` when it has one.
pub open spec fn backend_text(d: DecodingBackend) -> Seq<char> {
    let (name, dev) = match d {
        DecodingBackend::Software => ("software"@, None),
        DecodingBackend::Vaapi(x) => ("vaapi"@, device_view(x)),
        DecodingBackend::Cuda(x) => ("cuda"@, device_view(x)),
        DecodingBackend::Qsv(x) => ("qsv"@, device_view(x)),
    };
    match dev {
        Some(v) => name + ":"@ + v,
        None => name,
    }
}

/// Whether `b` is what `NAME[=DEVICE]` selects.
pub open spec fn backend_parsed_from(v: Seq<char>, b: DecodingBackend) -> bool {
    let (name, dev) = match split_once(v, '=') {
        Some((n, d)) => (n, Some(d)),
        None => (v, None),
    };
    let device = match dev {
        Some(d) => if d.len() > 0 {
            Some(d)
        } else {
            None
        },
        None => None,
    };
    match b {
        DecodingBackend::Software => (name.len() == 0 || name == "software"@) && dev is None,
        DecodingBackend::Vaapi(x) => name == "vaapi"@ && device_view(x) == device,
        DecodingBackend::Cuda(x) => name == "cuda"@ && device_view(x) == device,
        DecodingBackend::Qsv(x) => name == "qsv"@ && device_view(x) == device,
    }
}

/// Whether some backend is selected by `NAME[=DEVICE]`.
pub open spec fn names_backend(v: Seq<char>) -> bool {
    let (name, dev) = match split_once(v, '=') {
        Some((n, d)) => (n, Some(d)),
        None => (v, None),
    };
    ((name.len() == 0 || name == "software"@) && dev is None) || name == "vaapi"@ || name
        == "cuda"@ || name == "qsv"@
}

fn opt_clone(o: &Option<String>) -> (r: Option<String>)
    ensures
        device_view(r) == device_view(*o),
{
    match o {
        Some(s) => Some(s.clone()),
        None => None,
    }
}

fn cuda_name(w: u8, h: u8, d: &Vec<u8>) -> (r: Option<&'static str>)
    ensures
        r matches Some(n) ==> cuda_format(w, h, d@) == Some(n@),
        r is None ==> cuda_format(w, h, d@) is None,
{
    let (a, b, c) = if three_of(d, 8) {
        ("nv12", "nv16", "yuv444p")
    } else if three_of(d, 10) {
        ("p010le", "p210le", "yuv444p10msble")
    } else if three_of(d, 12) {
        ("p012le", "p212le", "yuv444p12msble")
    } else {
        return None;
    };
    assert(seq![8u8, 8u8, 8u8] != seq![10u8, 10u8, 10u8]) by {
        assert(seq![8u8, 8u8, 8u8][0] != seq![10u8, 10u8, 10u8][0]);
    }
    assert(seq![8u8, 8u8, 8u8] != seq![12u8, 12u8, 12u8]) by {
        assert(seq![8u8, 8u8, 8u8][0] != seq![12u8, 12u8, 12u8][0]);
    }
    assert(seq![10u8, 10u8, 10u8] != seq![12u8, 12u8, 12u8]) by {
        assert(seq![10u8, 10u8, 10u8][0] != seq![12u8, 12u8, 12u8][0]);
    }
    if w == 1 && h == 1 {
        Some(a)
    } else if w == 1 && h == 0 {
        Some(b)
    } else if w == 0 && h == 0 {
        Some(c)
    } else {
        None
    }
}

/// Joins `filters` with commas.
pub fn join_with_commas(filters: &Vec<String>) -> (r: String)
    ensures
        r@ == join_filters(string_views(filters@)),
{
    let ghost v = string_views(filters@);
    let mut out = String::new();
    let mut i: usize = 0;
    while i < filters.len()
        invariant
            v == string_views(filters@),
            i <= filters@.len(),
            out@ == join_filters(v.take(i as int)),
        decreases filters@.len() - i,
    {
        proof {
            assert(v.take(i + 1).drop_last() =~= v.take(i as int));
            assert(v.take(i + 1).last() == filters@[i as int]@);
        }
        if i == 0 {
            out = filters[i].clone();
            assert(v.take(1) =~= seq![filters@[0]@]);
        } else {
            out = out.concat(",").concat(filters[i].as_str());
        }
        i += 1;
    }
    assert(v.take(filters@.len() as int) =~= v);
    out
}

impl DecodingBackend {
    /// The name of the `-hwaccel` method.
    pub fn method(&self) -> (r: &'static str)
        ensures
            r@ == hw_method(*self),
    {
        match self {
            DecodingBackend::Software => "none",
            DecodingBackend::Vaapi(_) => "vaapi",
            DecodingBackend::Cuda(_) => "cuda",
            DecodingBackend::Qsv(_) => "qsv",
        }
    }

    /// The surface format passed straight to `encoding`, if decoder and encoder share hardware.
    pub fn direct_format(&self, encoding: &VideoEncoding) -> (r: Option<&'static str>)
        ensures
            r matches Some(f) ==> direct_target(*self, *encoding) == Some(f@),
            r is None ==> direct_target(*self, *encoding) is None,
    {
        match (self, encoding) {
            (DecodingBackend::Vaapi(x), VideoEncoding::Vaapi { device, .. }) => match x {
                None => Some("vaapi"),
                Some(dev) => if str_eq(dev.as_str(), device.as_str()) {
                    Some("vaapi")
                } else {
                    None
                },
            },
            (DecodingBackend::Cuda(_), VideoEncoding::Nvenc { .. }) => Some("cuda"),
            (DecodingBackend::Qsv(_), VideoEncoding::Qsv { .. }) => Some("qsv"),
            _ => None,
        }
    }

    /// The format frames of `source` are downloaded from the device in.
    pub fn download_format(&self, source: &PixelFormat) -> (r: String)
        ensures
            r@ == download_target(*self, *source),
    {
        match self {
            DecodingBackend::Software => source.name.clone(),
            DecodingBackend::Vaapi(_) | DecodingBackend::Qsv(_) => vaapi_qsv_format(source),
            DecodingBackend::Cuda(_) => match source.samples() {
                Some(VideoSamples { component_depths, chroma: Chroma::Yuv { log2_width, log2_height }, alpha: false }) => {
                    match cuda_name(log2_width, log2_height, &component_depths) {
                        Some(n) => String::from_str(n),
                        None => source.name.clone(),
                    }
                },
                _ => source.name.clone(),
            },
        }
    }

    /// The device frames are decoded on.
    pub fn device(&self, encoding: &VideoEncoding) -> (r: Option<String>)
        ensures
            device_view(r) == hw_device(*self, *encoding),
    {
        match (self, encoding) {
            (DecodingBackend::Vaapi(None), VideoEncoding::Vaapi { device, .. }) => Some(device.clone()),
            (DecodingBackend::Software, _) => None,
            (DecodingBackend::Vaapi(x), _) => opt_clone(x),
            (DecodingBackend::Cuda(x), _) => opt_clone(x),
            (DecodingBackend::Qsv(x), _) => opt_clone(x),
        }
    }

    /// The options that decode input stream `input_index` and deliver its frames,
    /// in `target` format, to output stream `output_index` of `encoding`.
    pub fn plan(
        &self,
        encoding: &VideoEncoding,
        source: &PixelFormat,
        input_index: usize,
        output_index: usize,
        target: &str,
    ) -> (p: FramePlan)
        ensures
            string_views(p.input_args@) == frame_input_args(*self, *encoding, input_index),
            string_views(p.output_args@) == frame_output_args(
                *self,
                *encoding,
                *source,
                output_index,
                target@,
            ),
    {
        let mut input_args: Vec<String> = Vec::new();
        let mut output_args: Vec<String> = Vec::new();
        assert(string_views(input_args@) =~= seq![]);
        assert(string_views(output_args@) =~= seq![]);
        let method = self.method();
        let software = match self {
            DecodingBackend::Software => true,
            _ => false,
        };
        add_arg(&mut input_args, Arg::Hwaccel(input_index, String::from_str(method)));
        match self.device(encoding) {
            Some(dev) => add_arg(&mut input_args, Arg::HwaccelDevice(input_index, dev)),
            None => {},
        }
        if !software {
            add_arg(&mut input_args, Arg::HwaccelOutputFormat(input_index, String::from_str(method)));
        }
        assert(string_views(input_args@) =~= frame_input_args(*self, *encoding, input_index));
        match self.direct_format(encoding) {
            Some(format) => {
                add_arg(&mut output_args, Arg::PixelFormat(output_index, String::from_str(format)));
                assert(string_views(output_args@) =~= frame_output_args(
                    *self,
                    *encoding,
                    *source,
                    output_index,
                    target@,
                ));
                return FramePlan { input_args, output_args };
            },
            None => {},
        }
        let mut filters: Vec<String> = Vec::new();
        let memory = if software {
            source.name.clone()
        } else {
            let download = self.download_format(source);
            filters.push(String::from_str("hwdownload,format=").concat(download.as_str()));
            download
        };
        let ghost after_download = string_views(filters@);
        if !str_eq(memory.as_str(), target) {
            if software {
                filters.push(String::from_str("format=").concat(memory.as_str()));
            }
            filters.push(String::from_str("scale=iw:ih,format=").concat(target));
        }
        let vaapi = match encoding {
            VideoEncoding::Vaapi { .. } => true,
            _ => false,
        };
        let output_format = if vaapi {
            filters.push(String::from_str("hwupload"));
            String::from_str("vaapi")
        } else {
            String::from_str(target)
        };
        proof {
            reveal_strlit("vaapi");
            reveal_strlit("hwupload");
        }
        assert(string_views(filters@) =~= frame_filters(*self, *encoding, *source, target@));
        if filters.len() > 0 {
            add_arg(&mut output_args, Arg::Filter(output_index, join_with_commas(&filters)));
        }
        add_arg(&mut output_args, Arg::PixelFormat(output_index, output_format));
        assert(string_views(output_args@) =~= frame_output_args(
            *self,
            *encoding,
            *source,
            output_index,
            target@,
        ));
        FramePlan { input_args, output_args }
    }

    /// Parses `NAME[=DEVICE]`.
    pub fn from_str(value: &str) -> (r: Result<DecodingBackend, String>)
        ensures
            r matches Ok(b) ==> backend_parsed_from(value@, b),
            r is Err <==> !names_backend(value@),
            r matches Err(m) ==> m@ == "unknown decoder "@ + value@,
    {
        let v = chars_of(value);
        let (name, dev) = match split_once_chars(v.as_slice(), '=') {
            Some((n, d)) => (n, Some(d)),
            None => (v, None),
        };
        let device = match &dev {
            Some(d) => if d.len() > 0 {
                Some(string_of(d.as_slice()))
            } else {
                None
            },
            None => None,
        };
        if (name.len() == 0 || chars_eq_str(name.as_slice(), "software")) && dev.is_none() {
            Ok(DecodingBackend::Software)
        } else if chars_eq_str(name.as_slice(), "vaapi") {
            Ok(DecodingBackend::Vaapi(device))
        } else if chars_eq_str(name.as_slice(), "cuda") {
            Ok(DecodingBackend::Cuda(device))
        } else if chars_eq_str(name.as_slice(), "qsv") {
            Ok(DecodingBackend::Qsv(device))
        } else {
            Err(message("unknown decoder ", value))
        }
    }

    /// The backend as text: `software`, or its name and `:DEVICE` when it has one.
    pub fn to_text(&self) -> (r: String)
        ensures
            r@ == backend_text(*self),
    {
        let (name, dev) = match self {
            DecodingBackend::Software => ("software", &None),
            DecodingBackend::Vaapi(x) => ("vaapi", x),
            DecodingBackend::Cuda(x) => ("cuda", x),
            DecodingBackend::Qsv(x) => ("qsv", x),
        };
        match dev {
            Some(v) => String::from_str(name).concat(":").concat(v.as_str()),
            None => String::from_str(name),
        }
    }
}

} // verus!
